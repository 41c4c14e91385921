use fragrance_vending::metrics::{
    cpu_usage_tenths, downsample_indices, metrics_period, offline_gaps, parse_cpu_stat, parse_u64, CpuStat,
};
use fragrance_vending::payment::{
    devices_from_reply, empty_reply, new_order_reference, order_id_from_reply, order_reference, order_status_from_reply, MpDevice,
    OrderReply, PaymentSimulator,
};
use fragrance_vending::text::{fmt_i64, log_file_line, push_grams, push_price};

fn price(c: i64) -> String {
    let mut s = String::new();
    push_price(&mut s, c);
    s
}

fn grams(mg: i64) -> String {
    let mut s = String::new();
    push_grams(&mut s, mg);
    s
}

#[test]
fn integers_render_in_decimal() {
    assert_eq!(fmt_i64(0), "0");
    assert_eq!(fmt_i64(-42), "-42");
    assert_eq!(fmt_i64(1234567), "1234567");
    assert_eq!(fmt_i64(i64::MIN), i64::MIN.to_string());
}

#[test]
fn prices_render_with_two_decimals() {
    assert_eq!(price(450), "4.50");
    assert_eq!(price(5), "0.05");
    assert_eq!(price(-5), "-0.05");
    assert_eq!(price(123456), "1234.56");
}

#[test]
fn weights_render_with_one_decimal() {
    assert_eq!(grams(1500), "1.5");
    assert_eq!(grams(200000), "200.0");
    assert_eq!(grams(1250), "1.2");
    assert_eq!(grams(1750), "1.8");
    assert_eq!(grams(1251), "1.3");
    assert_eq!(grams(-400), "-0.4");
    assert_eq!(grams(150), "0.1");
    assert_eq!(grams(350), "0.3");
    assert_eq!(grams(450), "0.5");
    assert_eq!(grams(250), "0.2");
    assert_eq!(grams(-10), "-0.0");
    assert_eq!(grams(0), "0.0");
}

#[test]
fn weights_render_as_the_nearest_double_does() {
    let check = |mg: i64| assert_eq!(grams(mg), format!("{:.1}", mg as f64 / 1000.0), "mg = {mg}");
    for mg in -2_000..200_000 {
        check(mg);
    }
    let mut mg: i64 = 1;
    while mg < (1i64 << 53) {
        for d in [-3, -1, 0, 49, 50, 51, 950] {
            check(mg + d);
        }
        mg = mg * 3 + 7;
    }
    for mg in (1i64 << 53) - 5_000..(1i64 << 53) {
        check(mg);
        check(-mg);
    }
}

#[test]
fn simulator_follows_the_mode() {
    let ok = PaymentSimulator::new(true).process(375);
    assert!(ok.success);
    assert_eq!(ok.method, "SIMULATED");
    assert_eq!(ok.message, "Payment of $3.75 simulated successfully");
    let no = PaymentSimulator::new(false).process(375);
    assert!(!no.success);
    assert_eq!(no.method, "");
    assert_eq!(no.message, "Real payment terminal not implemented");
}

#[test]
fn order_references() {
    assert_eq!(order_reference(3, 12, "abc"), "m3-p12-abc");
}

#[test]
fn terminal_answers() {
    let reply = |id: Option<&str>, status: Option<&str>| {
        Ok(OrderReply { id: id.map(|s| s.to_string()), status: status.map(|s| s.to_string()) })
    };
    assert_eq!(order_id_from_reply(201, "201 Created", "{}", reply(Some("O1"), None)), Ok("O1".to_string()));
    assert_eq!(
        order_id_from_reply(201, "201 Created", "{}", reply(None, None)),
        Err("MP response missing id".to_string())
    );
    assert_eq!(
        order_id_from_reply(401, "401 Unauthorized", "denied", reply(Some("O1"), None)),
        Err("MP API 401 Unauthorized: denied".to_string())
    );
    assert_eq!(
        order_id_from_reply(200, "200 OK", "x", Err("bad json".to_string())),
        Err("MP parse error: bad json".to_string())
    );
    assert_eq!(order_status_from_reply(200, "200 OK", "{}", reply(None, None)), Ok("unknown".to_string()));
    assert_eq!(order_status_from_reply(200, "200 OK", "{}", reply(None, Some("expired"))), Ok("expired".to_string()));
    assert_eq!(empty_reply(204, "204 No Content", ""), Ok(()));
    assert_eq!(empty_reply(404, "404 Not Found", "nope"), Err("MP API 404 Not Found: nope".to_string()));
    let devices = devices_from_reply(200, "200 OK", "{}", Ok(vec![MpDevice { id: "D".to_string(), operating_mode: None }]));
    assert_eq!(devices.unwrap()[0].id, "D");
    assert_eq!(
        devices_from_reply(200, "200 OK", "zz", Err("eof".to_string())).err(),
        Some("MP parse error: eof — zz".to_string())
    );
}

#[test]
fn periods() {
    assert_eq!(metrics_period(None), ("1h".to_string(), 60));
    assert_eq!(metrics_period(Some("6h".to_string())), ("6h".to_string(), 360));
    assert_eq!(metrics_period(Some("24h".to_string())), ("24h".to_string(), 1440));
    assert_eq!(metrics_period(Some("7d".to_string())), ("7d".to_string(), 10080));
    assert_eq!(metrics_period(Some("2w".to_string())), ("2w".to_string(), 60));
}

#[test]
fn long_series_are_thinned() {
    assert_eq!(downsample_indices(5), vec![0, 1, 2, 3, 4]);
    assert_eq!(downsample_indices(200).len(), 200);
    let idx = downsample_indices(450);
    assert_eq!(idx.len(), 150);
    assert_eq!(idx[1], 3);
    assert_eq!(downsample_indices(201).len(), 101);
    assert_eq!(downsample_indices(300).len(), 150);
    let idx = downsample_indices(399);
    assert_eq!(idx.len(), 200);
    assert_eq!(idx[199], 398);
    assert!((0..5000).all(|n| downsample_indices(n).len() <= 200));
    let idx = downsample_indices(1000);
    assert_eq!(idx.len(), 200);
    assert_eq!(idx[199], 995);
    assert!(downsample_indices(0).is_empty());
}

#[test]
fn offline_gaps_over_two_minutes() {
    let ts: Vec<String> = vec!["a", "b", "c", "d"].into_iter().map(String::from).collect();
    let gaps = offline_gaps(&ts, &vec![Some(30), Some(123), None]);
    assert_eq!(gaps.len(), 1);
    assert_eq!(gaps[0].from, "b");
    assert_eq!(gaps[0].to, "c");
    assert_eq!(gaps[0].duration_tenths, 21);
    assert!(offline_gaps(&ts, &vec![Some(120), Some(0), Some(-500)]).is_empty());
    assert_eq!(offline_gaps(&ts, &vec![Some(600), Some(121), Some(3600)]).iter().map(|g| g.duration_tenths).collect::<Vec<_>>(), vec![100, 20, 600]);
}

#[test]
fn cpu_usage_between_samples() {
    let a = CpuStat { total: 1000, idle: 800 };
    let b = CpuStat { total: 1400, idle: 900 };
    assert_eq!(cpu_usage_tenths(&a, &b), 750);
    assert_eq!(cpu_usage_tenths(&a, &a), 0);
    let c = CpuStat { total: 1003, idle: 801 };
    assert_eq!(cpu_usage_tenths(&a, &c), 667);
    let backwards = CpuStat { total: 900, idle: 700 };
    assert_eq!(cpu_usage_tenths(&a, &backwards), 0);
}

#[test]
fn proc_stat_first_line_is_read() {
    let text = b"cpu  100 5 50 1000 20 3 2 0 0 0\ncpu0 1 2 3 4 5 6 7\n";
    let stat = parse_cpu_stat(text).unwrap();
    assert_eq!(stat.total, 100 + 5 + 50 + 1000 + 20 + 3 + 2);
    assert_eq!(stat.idle, 1020);
    assert!(parse_cpu_stat(b"cpu 1 2 3\n4 5 6 7 8").is_none());
    assert!(parse_cpu_stat(b"cpu 1 2 x 4 5 6 7").is_none());
    assert_eq!(parse_cpu_stat(b"cpu\t+1 2 3 4 5 6 7").unwrap().total, 28);
    assert!(parse_cpu_stat(b"cpu 18446744073709551615 1 0 0 0 0 0").is_none());
}

#[test]
fn words_parse_as_u64() {
    assert_eq!(parse_u64(b"0"), Some(0));
    assert_eq!(parse_u64(b"+42"), Some(42));
    assert_eq!(parse_u64(b"18446744073709551615"), Some(u64::MAX));
    assert_eq!(parse_u64(b"18446744073709551616"), None);
    assert_eq!(parse_u64(b"+"), None);
    assert_eq!(parse_u64(b""), None);
    assert_eq!(parse_u64(b"-1"), None);
    assert_eq!(parse_u64(b"12a"), None);
}

#[test]
fn log_file_lines() {
    assert_eq!(
        log_file_line("2024-01-01 10:00:00", 1, "PURCHASE", "product_id=2 qty=5.0g"),
        "[2024-01-01 10:00:00] machine=1 PURCHASE | product_id=2 qty=5.0g\n"
    );
}

#[test]
fn order_references_end_in_a_v4_uuid() {
    let a = new_order_reference(1, 3);
    let b = new_order_reference(1, 3);
    assert!(a.starts_with("m1-p3-"));
    assert_ne!(a, b);
    let u: Vec<char> = a["m1-p3-".len()..].chars().collect();
    assert_eq!(u.len(), 36);
    for (i, c) in u.iter().enumerate() {
        if [8, 13, 18, 23].contains(&i) {
            assert_eq!(*c, '-');
        } else {
            assert!(c.is_ascii_digit() || ('a'..='f').contains(c));
        }
    }
    assert_eq!(u[14], '4');
    assert!(['8', '9', 'a', 'b'].contains(&u[19]));
}
