use galactic::html::data::{Data, EventualMissions, Mission, PlayerMission, Theater, Theaters};
use galactic::html::{Document, InfosError, ParseError, Sector};
use galactic::percent::{Bound, PercentError};

fn page(value: &str) -> String {
    let mut html = String::from("<html><body><ul>");
    for id in ["inner", "terminus", "earth", "outer", "attican"] {
        html.push_str(&format!("<li><span id=\"gaw-trating-{}\">{}</span></li>", id, value));
    }
    html.push_str("</ul></body></html>");
    html
}

const SECTORS: [Sector; 5] = [Sector::Inner, Sector::Terminus, Sector::Earth, Sector::Outer, Sector::Attican];

#[test]
fn test_parsing() {
    let doc = Document::new(&page("99.39%"));
    for sector in SECTORS {
        let text = doc.rating_text(sector).unwrap();
        assert_eq!(text, "99.39");
        let value: f64 = text.parse().unwrap();
        assert_eq!(value / 100f64, 0.9939);
    }
}

#[test]
fn galaxy_status() {
    let doc = Document::new(&page("%99.39%%"));
    let values: Vec<f64> = SECTORS
        .iter()
        .map(|s| doc.rating_text(*s).unwrap().parse::<f64>().unwrap() / 100f64)
        .collect();
    assert_eq!(values, vec![0.9939; 5]);
}

#[test]
fn rating_missing_sector() {
    let doc = Document::new("<html><body><span id=\"gaw-trating-inner\">50%</span></body></html>");
    assert_eq!(doc.rating_text(Sector::Inner).unwrap(), "50");
    match doc.rating_text(Sector::Earth) {
        Err(ParseError::MissingRef(selector)) => assert_eq!(selector, "#gaw-trating-earth"),
        other => panic!("unexpected {:?}", other),
    }
}

#[test]
fn rating_takes_first_match() {
    let doc = Document::new("<p id=\"gaw-trating-outer\">12%</p><p id=\"gaw-trating-outer\">34%</p>");
    assert_eq!(doc.rating_text(Sector::Outer).unwrap(), "12");
}

#[test]
fn rating_keeps_inner_percent() {
    let doc = Document::new("<p id=\"gaw-trating-outer\">%1%2%</p>");
    assert_eq!(doc.rating_text(Sector::Outer).unwrap(), "1%2");
}

#[test]
fn sector_selectors() {
    assert_eq!(Sector::Inner.selector(), "#gaw-trating-inner");
    assert_eq!(Sector::Terminus.selector(), "#gaw-trating-terminus");
    assert_eq!(Sector::Earth.selector(), "#gaw-trating-earth");
    assert_eq!(Sector::Outer.selector(), "#gaw-trating-outer");
    assert_eq!(Sector::Attican.selector(), "#gaw-trating-attican");
}

const SCRIPT_PAGE: &str = "<html><head><script>var x = {a: 1};</script>\
<script>var $gawdata = {\"missions\": {}, \"player_missions\": []};</script>\
<script>var $gawdata = {\"other\": 1};</script></head><body></body></html>";

#[test]
fn mission_status() {
    let doc = Document::new(SCRIPT_PAGE);
    let json = doc.infos().unwrap().unwrap();
    assert_eq!(json, "{\"missions\": {}, \"player_missions\": []}");
}

#[test]
fn infos_errors() {
    let doc = Document::new("<script>$gawdata = 1;</script>");
    assert_eq!(doc.infos().unwrap(), Err(InfosError::MissingStart));
    let doc = Document::new("<script>$gawdata = {1;</script>");
    assert_eq!(doc.infos().unwrap(), Err(InfosError::MissingEnd));
    let doc = Document::new("<script>$gawdata = }{;</script>");
    assert_eq!(doc.infos().unwrap().unwrap(), "");
}

#[test]
fn infos_unreadable_pages() {
    let doc = Document::new("<script>var x = {};</script>");
    assert!(doc.infos().is_none());
    let doc = Document::new("<script>$gawdata = } x {</script>");
    assert!(doc.infos().is_none());
}

#[test]
fn scripts_in_order() {
    let doc = Document::new(SCRIPT_PAGE);
    let scripts = doc.scripts();
    assert_eq!(scripts.len(), 3);
    assert_eq!(scripts[0], "var x = {a: 1};");
}

#[test]
fn cut_data_json_from_first_brace_to_last() {
    assert_eq!(galactic::html::cut_data_json("x = {a: {b}} ;").unwrap(), "{a: {b}}");
    let scripts = vec![String::from("nothing"), String::from("$gawdata={1}"), String::from("$gawdata={2}")];
    assert_eq!(galactic::html::data_json_in(&scripts).unwrap().unwrap(), "{1}");
    let none = vec![String::from("nothing")];
    assert!(galactic::html::data_json_in(&none).is_none());
    let uncuttable = vec![String::from("$gawdata } x {"), String::from("$gawdata {}")];
    assert!(galactic::html::data_json_in(&uncuttable).is_none());
    assert!(galactic::html::try_cut_data_json("} x {").is_none());
    assert_eq!(galactic::html::try_cut_data_json("x").unwrap(), Err(InfosError::MissingStart));
}

#[test]
fn percent_errors() {
    match PercentError::from_ordering(std::cmp::Ordering::Less) {
        PercentError::Value(b) => assert_eq!(b, Bound::Less),
        other => panic!("unexpected {:?}", other),
    }
    match PercentError::from_ordering(std::cmp::Ordering::Greater) {
        PercentError::Value(b) => assert_eq!(b, Bound::Greater),
        other => panic!("unexpected {:?}", other),
    }
    let pfe = "x".parse::<f64>().unwrap_err();
    let e: PercentError = pfe.into();
    assert!(matches!(e, PercentError::Parse(_)));
    let p: ParseError = e.into();
    assert!(matches!(p, ParseError::PercentError(PercentError::Parse(_))));
}

fn def(code: &str, duration: i64) -> (String, Mission) {
    (
        code.to_string(),
        Mission {
            theater: String::from("inner"),
            planet: String::from("p"),
            name: code.to_string(),
            description: String::new(),
            complete_msg: String::new(),
            duration,
            rating: String::from("1"),
        },
    )
}

fn theaters() -> Theaters {
    let t = |n: &str| Theater { name: n.to_string() };
    Theaters { inner: t("inner"), terminus: t("terminus"), earth: t("earth"), outer: t("outer"), attican: t("attican") }
}

#[test]
fn one_hour_missions_filters_in_order() {
    let data = Data::new(
        theaters(),
        vec![def("a", 3600), def("b", 7200), def("c", 3600), def("d", 3599)],
        EventualMissions::default(),
        Vec::new(),
    )
    .unwrap();
    assert_eq!(data.one_hour_missions(), vec![String::from("a"), String::from("c")]);
    assert_eq!(data.missions().len(), 4);
}

#[test]
fn eventual_missions_get() {
    let raw = PlayerMission { start: 0, duration: 3600, is_completed: true, remained: 0 };
    assert!(EventualMissions::NoMission(vec![raw]).get().is_empty());
    let got = EventualMissions::Missions(vec![(String::from("m"), raw)]).get();
    assert_eq!(got.len(), 1);
    assert_eq!(got[0].0, "m");
    match EventualMissions::default() {
        EventualMissions::Missions(m) => assert!(m.is_empty()),
        _ => panic!("default should hold no mission"),
    }
}

#[test]
fn data_json_runs_from_brace_to_brace() {
    for script in ["$gawdata = {\"a\": {\"b\": 1}} // }", "x{y}z", "}{"] {
        let cut = galactic::html::cut_data_json(script).unwrap();
        assert!(cut.is_empty() || (cut.starts_with('{') && cut.ends_with('}')));
    }
}

#[test]
fn data_refuses_repeated_keys() {
    let repeated = Data::new(theaters(), vec![def("a", 3600), def("a", 7200)], EventualMissions::default(), Vec::new());
    assert!(repeated.is_none());
    let raw = PlayerMission { start: 0, duration: 3600, is_completed: true, remained: 0 };
    let players = EventualMissions::Missions(vec![(String::from("m"), raw), (String::from("m"), raw)]);
    assert!(Data::new(theaters(), vec![], players, Vec::new()).is_none());
    let lang = vec![(String::from("k"), String::from("1")), (String::from("k"), String::from("2"))];
    assert!(Data::new(theaters(), vec![], EventualMissions::default(), lang).is_none());
}

#[test]
fn document_keeps_page_and_counts() {
    let doc = Document::new(SCRIPT_PAGE);
    assert_eq!(doc.html(), SCRIPT_PAGE);
    assert_eq!(doc.scripts().len(), 3);
    let empty = Document::new("<p>nothing</p>");
    assert!(empty.scripts().is_empty());
    for sector in SECTORS {
        assert!(empty.rating_text(sector).is_err());
    }
}

#[test]
fn infos_error_messages() {
    assert_eq!(InfosError::MissingStart.message(), "missing start of json data");
    assert_eq!(InfosError::MissingEnd.message(), "missing end of json data");
}
