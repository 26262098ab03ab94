//! Results as comma-separated text.

use spmc_ring::bench::csv::{
    raw_csv, raw_header, raw_record, summary_csv, summary_header, summary_record,
};
use spmc_ring::bench::scenario::{RawRow, Role, SummaryRow};
use spmc_ring::bench::text::{append_decimal, decimal_text, same_text};

const RAW: &str = "scenario,backend,trial,role,thread_id,capacity,num_consumers,ratio,ok_ops,fail_ops,window_ns,throughput_ops_s,fail_rate_pct,lat_p50_ns,lat_p99_ns,lat_max_ns,fail_lat_p50_ns,fail_lat_p99_ns,payload_bytes";

const SUMMARY: &str = "scenario,backend,role,capacity,num_consumers,ratio,payload_bytes,trials,tput_mean,tput_median,tput_min,tput_max,fail_rate_mean,lat_p50_mean,lat_p50_median,lat_p99_mean,lat_p99_median,fail_lat_p50_mean,fail_lat_p50_median,fail_lat_p99_mean,fail_lat_p99_median";

fn raw(trial: usize) -> RawRow<String> {
    RawRow {
        scenario: String::from("s"),
        backend: String::from("spmc"),
        trial,
        role: Role::Consumer,
        thread_id: 3,
        capacity: 1024,
        num_consumers: 4,
        ratio: String::from("max"),
        ok_ops: 10,
        fail_ops: u64::MAX,
        window_ns: String::from("1"),
        throughput_ops_s: String::from("2.5"),
        fail_rate_pct: String::from("3"),
        lat_p50_ns: String::from("4"),
        lat_p99_ns: String::from("5"),
        lat_max_ns: String::from("6"),
        fail_lat_p50_ns: String::new(),
        fail_lat_p99_ns: String::new(),
        payload_bytes: 64,
    }
}

fn summary() -> SummaryRow<String> {
    SummaryRow {
        scenario: String::from("s"),
        backend: String::from("sync"),
        role: Role::Producer,
        capacity: 8,
        num_consumers: 1,
        ratio: String::from("cons_5x"),
        payload_bytes: 8,
        trials: 3,
        tput_mean: String::from("a"),
        tput_median: String::from("b"),
        tput_min: String::from("c"),
        tput_max: String::from("d"),
        fail_rate_mean: String::from("e"),
        lat_p50_mean: String::from("f"),
        lat_p50_median: String::from("g"),
        lat_p99_mean: String::from("h"),
        lat_p99_median: String::from("i"),
        fail_lat_p50_mean: String::from("j"),
        fail_lat_p50_median: String::from("k"),
        fail_lat_p99_mean: String::from("l"),
        fail_lat_p99_median: String::from("m"),
    }
}

#[test]
fn headers_name_every_column() {
    assert_eq!(raw_header(), RAW);
    assert_eq!(summary_header(), SUMMARY);
    assert_eq!(RAW.split(',').count(), raw_record(&raw(0)).split(',').count());
    assert_eq!(SUMMARY.split(',').count(), summary_record(&summary()).split(',').count());
}

#[test]
fn records_list_every_field() {
    assert_eq!(
        raw_record(&raw(7)),
        "s,spmc,7,consumer,3,1024,4,max,10,18446744073709551615,1,2.5,3,4,5,6,,,64"
    );
    assert_eq!(
        summary_record(&summary()),
        "s,sync,producer,8,1,cons_5x,8,3,a,b,c,d,e,f,g,h,i,j,k,l,m"
    );
}

#[test]
fn only_new_files_get_a_header() {
    let rows = vec![raw(0), raw(1)];
    let body = format!("{}\n{}\n", raw_record(&rows[0]), raw_record(&rows[1]));
    assert_eq!(raw_csv(&rows, false), body);
    assert_eq!(raw_csv(&rows, true), format!("{RAW}\n{body}"));
    assert_eq!(raw_csv(&Vec::new(), true), format!("{RAW}\n"));
    assert_eq!(raw_csv(&Vec::new(), false), "");

    let line = summary_record(&summary());
    assert_eq!(summary_csv(&vec![summary()], false), format!("{line}\n"));
    assert_eq!(summary_csv(&vec![summary()], true), format!("{SUMMARY}\n{line}\n"));
}

#[test]
fn runs_add_up() {
    let once = raw_csv(&vec![raw(0), raw(1), raw(2)], true);
    let twice = raw_csv(&vec![raw(0)], true) + &raw_csv(&vec![raw(1), raw(2)], false);
    assert_eq!(once, twice);
}

#[test]
fn numbers_read_in_decimal() {
    assert_eq!(decimal_text(0), "0");
    assert_eq!(decimal_text(9), "9");
    assert_eq!(decimal_text(10), "10");
    assert_eq!(decimal_text(u128::MAX), "340282366920938463463374607431768211455");
    let mut text = String::from("n=");
    append_decimal(&mut text, 1203);
    assert_eq!(text, "n=1203");
    assert!(same_text(&text, "n=1203"));
    assert!(!same_text(&text, "n=1204"));
}
