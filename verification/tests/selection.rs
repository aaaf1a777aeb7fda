use agent_forward::client::{ClientId, ClientInfo};
use agent_forward::pick::{can_pick, pick_target_client};
use agent_forward::timestamp::{Timestamp, MAX_SECS, MIN_SECS};
use chrono::{DateTime, Duration, Timelike, Utc};
use std::sync::Arc;

fn client(hostname: &str, id: u64, forward: bool, millis: i64) -> ClientInfo {
    ClientInfo {
        client_id: Arc::new(ClientId {
            hostname: hostname.to_string(),
            id,
            ssh_agent_forward: forward,
        }),
        last_input: Timestamp {
            secs: 1_700_000_000 + millis.div_euclid(1000),
            nanos: millis.rem_euclid(1000) as u32 * 1_000_000,
        },
    }
}

fn proxy(id: u64, millis: i64) -> ClientInfo {
    client("host (via proxy pid 12)", id, true, millis)
}

fn picked(clients: &Vec<ClientInfo>) -> Option<u64> {
    assert!(can_pick(clients));
    pick_target_client(clients).map(|client| client.id)
}

fn stamp(moment: DateTime<Utc>) -> Timestamp {
    Timestamp { secs: moment.timestamp(), nanos: moment.timestamp_subsec_nanos() }
}

#[test]
fn nobody_is_chosen_without_forwarders() {
    assert_eq!(picked(&vec![]), None);
    assert_eq!(picked(&vec![client("a", 1, false, 5), client("b", 2, false, 6)]), None);
}

#[test]
fn forwarders_only_are_chosen() {
    assert_eq!(picked(&vec![client("a", 1, true, 5), client("b", 2, false, 6)]), Some(1));
}

#[test]
fn most_recent_is_chosen() {
    let clients = vec![
        client("a", 1, true, 5),
        client("b", 2, true, 7),
        client("c", 3, true, 6),
    ];
    assert_eq!(picked(&clients), Some(2));
}

#[test]
fn most_recent_of_proxies_is_chosen() {
    assert_eq!(picked(&vec![proxy(1, 5), proxy(2, 950), proxy(3, 940)]), Some(2));
}

#[test]
fn first_of_equals_is_chosen() {
    assert_eq!(picked(&vec![client("a", 1, true, 5), client("b", 2, true, 5)]), Some(1));
    assert_eq!(picked(&vec![client("b", 2, true, 5), client("a", 1, true, 5)]), Some(2));
}

#[test]
fn proxy_precedes_gui_within_bonus() {
    assert_eq!(picked(&vec![client("gui", 1, true, 99), proxy(2, 0)]), Some(2));
    assert_eq!(picked(&vec![proxy(2, 0), client("gui", 1, true, 99)]), Some(2));
    assert_eq!(picked(&vec![client("gui", 1, true, 1040), proxy(2, 950)]), Some(2));
}

#[test]
fn gui_takes_over_after_bonus() {
    assert_eq!(picked(&vec![client("gui", 1, true, 101), proxy(2, 0)]), Some(1));
    assert_eq!(picked(&vec![proxy(2, 950), client("gui", 1, true, 1051)]), Some(1));
}

#[test]
fn order_decides_at_exactly_the_bonus() {
    assert_eq!(picked(&vec![client("gui", 1, true, 100), proxy(2, 0)]), Some(1));
    assert_eq!(picked(&vec![proxy(2, 0), client("gui", 1, true, 100)]), Some(2));
}

#[test]
fn others_play_no_part() {
    let clients = vec![
        client("x", 9, false, 500),
        client("a", 1, true, 5),
        client("y", 8, false, 400),
        client("b", 2, true, 7),
        client("z", 7, false, 300),
    ];
    assert_eq!(picked(&clients), Some(2));
}

#[test]
fn proxy_is_told_by_its_host_name() {
    let named = |hostname: &str| ClientId { hostname: hostname.to_string(), id: 0, ssh_agent_forward: true };
    assert!(named("via proxy pid").is_proxy());
    assert!(named("h\u{e4}ll (via proxy pid 7)").is_proxy());
    assert!(!named("via proxy").is_proxy());
    assert!(!named("Via Proxy Pid").is_proxy());
    assert!(!named("").is_proxy());
}

#[test]
fn identity_takes_all_fields() {
    let base = || ClientId { hostname: "h".to_string(), id: 1, ssh_agent_forward: true };
    assert!(base().is_same(&base()));
    assert!(!base().is_same(&ClientId { hostname: "g".to_string(), ..base() }));
    assert!(!base().is_same(&ClientId { id: 2, ..base() }));
    assert!(!base().is_same(&ClientId { ssh_agent_forward: false, ..base() }));
}

#[test]
fn choice_needs_representable_ranks() {
    let mut late = proxy(1, 0);
    late.last_input = Timestamp { secs: MAX_SECS, nanos: 900_000_000 };
    let mut fits = proxy(2, 0);
    fits.last_input = Timestamp { secs: MAX_SECS, nanos: 899_999_999 };
    assert!(can_pick(&vec![late]));
    let mut late = proxy(1, 0);
    late.last_input = Timestamp { secs: MAX_SECS, nanos: 900_000_000 };
    assert!(!can_pick(&vec![late, fits]));
    let mut fits = proxy(2, 0);
    fits.last_input = Timestamp { secs: MAX_SECS, nanos: 899_999_999 };
    assert_eq!(picked(&vec![client("a", 1, true, 0), fits]), Some(2));
    let mut gui = client("gui", 3, true, 0);
    gui.last_input = Timestamp { secs: MAX_SECS, nanos: 999_999_999 };
    assert_eq!(picked(&vec![proxy(1, 0), gui]), Some(3));
}

#[test]
fn single_candidate_needs_no_rank() {
    let mut late = proxy(1, 0);
    late.last_input = Timestamp { secs: MAX_SECS, nanos: 999_999_999 };
    assert_eq!(picked(&vec![late, client("x", 2, false, 0)]), Some(1));
}

#[test]
fn calendar_ends_where_stated() {
    assert_eq!(DateTime::<Utc>::MIN_UTC.timestamp(), MIN_SECS);
    assert_eq!(DateTime::<Utc>::MAX_UTC.timestamp(), MAX_SECS);
    assert!(DateTime::from_timestamp(MAX_SECS + 1, 0).is_none());
    assert!(DateTime::from_timestamp(MIN_SECS - 1, 0).is_none());
}

#[test]
fn delay_agrees_with_calendar() {
    let seconds = [MIN_SECS, -61, -1, 0, 58, 59, 1_700_000_000, MAX_SECS - 1, MAX_SECS];
    let nanos = [0, 1, 899_999_999, 900_000_000, 999_999_999, 1_000_000_000, 1_899_999_999, 1_900_000_000, 1_999_999_999];
    for secs in seconds {
        for nano in nanos {
            for millis in [0, 1, 100, 999] {
                let moment = DateTime::from_timestamp(secs, 0)
                    .unwrap()
                    .naive_utc()
                    .with_nanosecond(nano)
                    .unwrap()
                    .and_utc();
                let here = stamp(moment);
                assert_eq!((here.secs, here.nanos), (secs, nano));
                let sum = moment.checked_add_signed(Duration::milliseconds(millis));
                assert_eq!(here.has_after_millis(millis), sum.is_some());
                if let Some(sum) = sum {
                    let later = here.after_millis(millis);
                    assert_eq!((later.secs, later.nanos), (sum.timestamp(), sum.timestamp_subsec_nanos()));
                    // The stated rule.
                    let end = if nano >= 1_000_000_000 { 2_000_000_000 } else { 1_000_000_000 };
                    let total = nano as i64 + millis * 1_000_000;
                    let expected = if total < end { (secs, total) } else { (secs + 1, total - end) };
                    assert_eq!((later.secs, later.nanos as i64), expected);
                }
            }
        }
    }
}

#[test]
fn delay_leaves_a_leap_second_at_its_end() {
    let leap = Timestamp { secs: 59, nanos: 1_950_000_000 };
    let later = leap.after_millis(100);
    assert_eq!((later.secs, later.nanos), (60, 50_000_000));
    let within = Timestamp { secs: 59, nanos: 1_850_000_000 }.after_millis(100);
    assert_eq!((within.secs, within.nanos), (59, 1_950_000_000));
}

#[test]
fn order_agrees_with_calendar() {
    let moments: Vec<DateTime<Utc>> = vec![
        DateTime::from_timestamp(-1, 999_999_999).unwrap(),
        DateTime::from_timestamp(0, 0).unwrap(),
        DateTime::from_timestamp(0, 5).unwrap(),
        DateTime::from_timestamp(59, 1_500_000_000).unwrap(),
        DateTime::from_timestamp(60, 0).unwrap(),
    ];
    for a in &moments {
        for b in &moments {
            assert_eq!(stamp(*a).is_earlier_than(&stamp(*b)), a < b);
        }
    }
}

#[test]
fn unrepresentable_moments_have_no_delay() {
    assert!(!Timestamp { secs: MAX_SECS + 1, nanos: 0 }.has_after_millis(0));
    assert!(!Timestamp { secs: MIN_SECS - 1, nanos: 0 }.has_after_millis(0));
    assert!(!Timestamp { secs: 0, nanos: 2_000_000_000 }.has_after_millis(0));
    assert!(Timestamp { secs: 0, nanos: 1_999_999_999 }.has_after_millis(0));
}

#[test]
fn bonus_skips_a_leap_second() {
    // The bonus carries a proxy from just before a leap second past it, ahead of one active in it.
    let mut before = proxy(1, 0);
    before.last_input = Timestamp { secs: 59, nanos: 950_000_000 };
    let mut within = proxy(2, 0);
    within.last_input = Timestamp { secs: 59, nanos: 1_000_000_000 };
    assert!(before.last_input.is_earlier_than(&within.last_input));
    assert_eq!(picked(&vec![within, before]), Some(1));
}

#[test]
fn shift_changes_nothing() {
    for shift in [-1_700_000_000_950, -1, 0, 60, 950, 86_400_000] {
        let clients = vec![
            client("gui", 1, true, 990 + shift),
            proxy(2, 900 + shift),
            client("x", 3, false, 2000 + shift),
            proxy(4, 895 + shift),
        ];
        assert_eq!(picked(&clients), Some(2));
    }
}

#[test]
fn shift_out_of_a_leap_second_can_change_the_choice() {
    let at = |id: u64, secs: i64, nanos: u32| {
        let mut client = proxy(id, 0);
        client.last_input = Timestamp { secs, nanos };
        client
    };
    assert_eq!(picked(&vec![at(1, 59, 950_000_000), at(2, 59, 1_000_000_000)]), Some(1));
    // The same moments a second earlier: the leap second becomes an ordinary one.
    assert_eq!(picked(&vec![at(1, 58, 950_000_000), at(2, 59, 0)]), Some(2));
}
