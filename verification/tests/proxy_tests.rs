use snm::convert::{essid_from_params, props_from_params, strings_from_params, Base, Param};
use snm::proxy_tracker::ProxyTracker;
use snm::types::{ConnectionSetting, KnownNetwork};

fn text(s: &str) -> Param {
    Param::Base(Base::Text(s.to_string()))
}

fn s(x: &str) -> Option<String> {
    Some(x.to_string())
}

#[test]
fn tracker_counts_each_client_once() {
    let mut t = ProxyTracker::new();
    assert_eq!(t.active(), 0);
    t.start_track(&s(":1.5"));
    t.start_track(&s(":1.6"));
    t.start_track(&s(":1.5"));
    t.start_track(&None);
    assert_eq!(t.active(), 2);
    t.stop_track(&s(":1.5"));
    t.stop_track(&s(":1.5"));
    t.stop_track(&None);
    assert_eq!(t.active(), 1);
}

#[test]
fn tracker_forgets_a_name_that_left_the_bus() {
    let mut t = ProxyTracker::new();
    t.start_track(&s(":1.5"));
    t.start_track(&s(":1.6"));
    t.event(&s("NameOwnerChanged"), &vec![s(":1.5"), s(":1.5"), s("")]);
    assert_eq!(t.active(), 1);
    t.event(&s("NameOwnerChanged"), &vec![s(":1.5"), s(":1.5"), s("")]);
    assert_eq!(t.active(), 1);
}

#[test]
fn tracker_passes_over_other_signals() {
    let mut t = ProxyTracker::new();
    t.start_track(&s(":1.5"));
    t.event(&s("NameOwnerChanged"), &vec![s(":1.5"), s(""), s(":1.5")]);
    t.event(&s("NameAcquired"), &vec![s(":1.5"), s(":1.5"), s("")]);
    t.event(&None, &vec![s(":1.5"), s(":1.5"), s("")]);
    t.event(&s("NameOwnerChanged"), &vec![s(":1.5"), s("")]);
    t.event(&s("NameOwnerChanged"), &vec![s(":1.5"), s(":1.5"), s(""), s("")]);
    t.event(&s("NameOwnerChanged"), &vec![None, s(":1.5"), s("")]);
    t.event(&s("NameOwnerChanged"), &vec![s(":1.5"), s(":1.5"), None]);
    assert_eq!(t.active(), 1);
}

#[test]
fn setting_from_params() {
    let call = |fields: Vec<Base>| ConnectionSetting::from_params(&vec![Param::Struct(fields)]);
    assert_eq!(
        call(vec![Base::Uint32(1), Base::Text("x".to_string()), Base::Boolean(true)]),
        Ok(ConnectionSetting::Ethernet)
    );
    assert_eq!(
        call(vec![Base::Uint32(1), Base::Other, Base::Other]),
        Ok(ConnectionSetting::Ethernet)
    );
    assert_eq!(
        call(vec![Base::Uint32(2), Base::Text("corp".to_string()), Base::Boolean(true)]),
        Ok(ConnectionSetting::Wifi {
            essid: "corp".to_string(),
            password: String::new(),
            threshold: None
        })
    );
    assert_eq!(
        call(vec![Base::Uint32(2), Base::Text("guest".to_string()), Base::Boolean(false)]),
        Ok(ConnectionSetting::OpenWifi { essid: "guest".to_string(), threshold: None })
    );
    assert_eq!(
        call(vec![Base::Uint32(3), Base::Text("x".to_string()), Base::Boolean(false)]),
        Err(())
    );
    assert_eq!(
        call(vec![Base::Uint32(0), Base::Text("x".to_string()), Base::Boolean(false)]),
        Err(())
    );
    assert_eq!(
        call(vec![Base::Int32(2), Base::Text("x".to_string()), Base::Boolean(false)]),
        Err(())
    );
    assert_eq!(call(vec![Base::Uint32(2), Base::Boolean(false), Base::Boolean(false)]), Err(()));
    assert_eq!(
        call(vec![Base::Uint32(2), Base::Text("x".to_string()), Base::Uint32(1)]),
        Err(())
    );
    assert_eq!(call(vec![Base::Uint32(1), Base::Text("x".to_string())]), Err(()));
    assert_eq!(ConnectionSetting::from_params(&vec![]), Err(()));
    assert_eq!(ConnectionSetting::from_params(&vec![text("x")]), Err(()));
    assert_eq!(ConnectionSetting::from_params(&vec![Param::Other]), Err(()));
    assert_eq!(
        ConnectionSetting::from_params(&vec![
            Param::Struct(vec![Base::Uint32(1), Base::Other, Base::Other]),
            Param::Other
        ]),
        Err(())
    );
}

#[test]
fn essid_from_one_string() {
    assert_eq!(essid_from_params(&vec![text("corp")]), Ok("corp".to_string()));
    assert_eq!(essid_from_params(&vec![]), Err(()));
    assert_eq!(essid_from_params(&vec![text("a"), text("b")]), Err(()));
    assert_eq!(essid_from_params(&vec![Param::Base(Base::Uint32(1))]), Err(()));
    assert_eq!(essid_from_params(&vec![Param::Struct(vec![])]), Err(()));
}

#[test]
fn props_from_six_params() {
    let params = |auto: bool, enc: bool, roaming: bool| {
        vec![
            text("corp"),
            text("pw"),
            Param::Base(Base::Int32(-70)),
            Param::Base(Base::Boolean(auto)),
            Param::Base(Base::Boolean(enc)),
            Param::Base(Base::Boolean(roaming)),
        ]
    };
    assert_eq!(
        props_from_params(&params(true, true, true)),
        Ok((
            "corp".to_string(),
            KnownNetwork { auto: true, password: Some("pw".to_string()), threshold: Some(-70) }
        ))
    );
    assert_eq!(
        props_from_params(&params(false, false, false)),
        Ok(("corp".to_string(), KnownNetwork { auto: false, password: None, threshold: None }))
    );
    let mut short = params(true, true, true);
    short.pop();
    assert_eq!(props_from_params(&short), Err(()));
    let mut wrong = params(true, true, true);
    wrong[2] = Param::Base(Base::Uint32(70));
    assert_eq!(props_from_params(&wrong), Err(()));
    let mut wrong = params(true, true, true);
    wrong[0] = Param::Other;
    assert_eq!(props_from_params(&wrong), Err(()));
    let mut wrong = params(true, true, true);
    wrong[5] = text("yes");
    assert_eq!(props_from_params(&wrong), Err(()));
}

#[test]
fn strings_among_params() {
    assert_eq!(
        strings_from_params(&vec![text("a"), Param::Other, Param::Base(Base::Int32(1)), text("")]),
        vec![s("a"), None, None, s("")]
    );
}
