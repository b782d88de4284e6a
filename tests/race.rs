use cloud_meta::{Error, Event, Provider, Race};

fn run(events: Vec<Event<&'static str>>) -> (Option<(Provider, &'static str)>, usize) {
    let mut race: Race<&str> = Race::new();
    let mut taken = 0;
    for e in events {
        if race.is_decided() {
            break;
        }
        race = race.step(e);
        taken += 1;
    }
    (race.outcome(), taken)
}

#[test]
fn all_probes_fail_then_timeout_detects_none() {
    let events: Vec<Event<&str>> = vec![
        Event::Finished(Provider::Amazon, Err(Error::Response(404))),
        Event::Finished(Provider::Azure, Err(Error::Response(400))),
        Event::Finished(Provider::Google, Err(Error::Internal("refused".to_string()))),
        Event::Finished(Provider::Oracle, Err(Error::Response(401))),
    ];
    let mut race: Race<&str> = Race::new();
    for e in events {
        race = race.step(e);
        assert!(!race.is_decided());
    }
    race = race.step(Event::TimedOut);
    assert!(race.is_decided());
    assert_eq!(race.outcome(), None);
}

#[test]
fn single_success_wins_before_timeout() {
    let (out, taken) = run(vec![
        Event::Finished(Provider::Azure, Err(Error::Response(404))),
        Event::Finished(Provider::Google, Ok("gce")),
        Event::TimedOut,
    ]);
    assert_eq!(out, Some((Provider::Google, "gce")));
    assert_eq!(taken, 2);
}

#[test]
fn two_successes_yield_exactly_one_winner() {
    let mut race: Race<&str> = Race::new();
    race = race.step(Event::Finished(Provider::Oracle, Ok("oci")));
    race = race.step(Event::Finished(Provider::Amazon, Ok("ec2")));
    race = race.step(Event::TimedOut);
    assert_eq!(race.outcome(), Some((Provider::Oracle, "oci")));
}

#[test]
fn success_after_timeout_is_ignored() {
    let mut race: Race<&str> = Race::new();
    race = race.step(Event::TimedOut);
    race = race.step(Event::Finished(Provider::Amazon, Ok("ec2")));
    assert_eq!(race.outcome(), None);
}

#[test]
fn undecided_race_has_no_outcome() {
    let race: Race<u8> = Race::new();
    assert!(!race.is_decided());
    assert_eq!(race.outcome(), None);
}
