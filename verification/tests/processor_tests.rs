use eventflow::config::{Config, ProcessorType, SubFilter};
use eventflow::event::Event;
use eventflow::processor::print::content_preview;
use eventflow::processor::{
    create_processor, BuiltinProcessor, GeohashFilterProcessor, PassthroughProcessor, PrintProcessor,
    Processor, WaitProcessor,
};
use eventflow::relay_router::{convert_filters_to_nostr, event_matches_filters, matches_single_filter};

const KEY: &str = "13adc511de7e1cfcf1c6b7f6365fb5a03442d7bcacf565ea57fa7770912c023d";

fn event(kind: u16, tags: Vec<Vec<&str>>) -> Event {
    Event {
        id: "00".repeat(32),
        pubkey: KEY.to_string(),
        created_at: 1700000000,
        kind,
        tags: tags
            .into_iter()
            .map(|t| t.into_iter().map(|s| s.to_string()).collect())
            .collect(),
        content: "hello".to_string(),
        sig: "11".repeat(64),
    }
}

fn same(a: &Event, b: &Event) -> bool {
    a.id == b.id
        && a.pubkey == b.pubkey
        && a.created_at == b.created_at
        && a.kind == b.kind
        && a.tags == b.tags
        && a.content == b.content
        && a.sig == b.sig
}

#[test]
fn passthrough_forwards_event() {
    let e = event(1, vec![vec!["t", "nostr"]]);
    let out = PassthroughProcessor::new().process(&e);
    assert_eq!(out.len(), 1);
    assert!(same(&out[0], &e));
}

#[test]
fn geohash_filter_without_prefixes() {
    let p = GeohashFilterProcessor::new(vec![]);
    assert_eq!(p.process(&event(1, vec![vec!["g", "u0abc"]])).len(), 1);
    assert_eq!(p.process(&event(1, vec![vec!["g"]])).len(), 1);
    assert_eq!(p.process(&event(1, vec![vec!["t", "u0"]])).len(), 0);
    assert_eq!(p.process(&event(1, vec![])).len(), 0);
}

#[test]
fn geohash_filter_with_prefixes() {
    let p = GeohashFilterProcessor::new(vec!["u0".to_string(), "9q".to_string()]);
    assert!(p.matches_prefix("u0xyz"));
    assert!(p.matches_prefix("9q8"));
    assert!(!p.matches_prefix("u1"));
    assert_eq!(p.process(&event(1, vec![vec!["g", "u1"], vec!["g", "9q5"]])).len(), 1);
    assert_eq!(p.process(&event(1, vec![vec!["g", "u1"]])).len(), 0);
    assert_eq!(p.process(&event(1, vec![vec!["g"]])).len(), 0);
}

#[test]
fn wait_and_print_processors() {
    let w = WaitProcessor::new(250);
    assert_eq!(w.delay_ms(), 250);
    assert_eq!(WaitProcessor::default_5s().delay_ms(), 5000);
    let e = event(7, vec![]);
    assert!(same(&w.process(&e)[0], &e));
    let p = PrintProcessor::new();
    assert_eq!(p.prefix(), "[PRINT]");
    assert_eq!(PrintProcessor::with_prefix("[X]".to_string()).prefix(), "[X]");
    assert_eq!(p.name(), "PrintProcessor");
    assert!(same(&p.process(&e)[0], &e));
    assert!(p.is_ready());
}

#[test]
fn print_line_and_preview() {
    let mut e = event(7, vec![]);
    e.content = "line one\r\nline two".to_string();
    assert_eq!(
        PrintProcessor::new().line(&e),
        format!(
            "[PRINT] Event: {}... | Author: {}... | Kind: 7 | Time: 1700000000 | Content: line one line two",
            &e.id[..16],
            &KEY[..16]
        )
    );
    assert_eq!(content_preview("short"), "short");
    let long: String = "é".repeat(150);
    assert_eq!(content_preview(&long), format!("{}...", "é".repeat(100)));
    assert_eq!(content_preview(&"a".repeat(100)), "a".repeat(100));
    assert_eq!(content_preview("\n\r"), " ");
}

#[test]
fn create_processor_from_config() {
    assert!(matches!(create_processor(&ProcessorType::Passthrough), BuiltinProcessor::Passthrough(_)));
    match create_processor(&ProcessorType::WaitProcessor) {
        BuiltinProcessor::Wait(w) => assert_eq!(w.delay_ms(), 5000),
        _ => panic!("expected a wait processor"),
    }
    let g = create_processor(&ProcessorType::GeohashFilter { allowed_prefixes: vec!["u0".to_string()] });
    assert_eq!(g.process(&event(1, vec![vec!["g", "u0"]])).len(), 1);
    assert_eq!(g.process(&event(1, vec![vec!["g", "u1"]])).len(), 0);
    assert_eq!(g.name(), "eventflow::processor::geohash_filter::GeohashFilterProcessor");
}

#[test]
fn single_filter_conditions() {
    let e = event(1, vec![vec!["e", "abc"], vec!["p", "def", "relay"]]);
    let mut f = SubFilter::default();
    assert!(matches_single_filter(&e, &f));
    f.kinds = Some(vec![0, 1]);
    assert!(matches_single_filter(&e, &f));
    f.kinds = Some(vec![3]);
    assert!(!matches_single_filter(&e, &f));
    f.kinds = None;
    f.authors = Some(vec![KEY.to_string()]);
    assert!(matches_single_filter(&e, &f));
    f.authors = Some(vec!["ff".repeat(32)]);
    assert!(!matches_single_filter(&e, &f));
    f.authors = None;
    f.tags = vec![("#e".to_string(), vec!["abc".to_string()])];
    assert!(matches_single_filter(&e, &f));
    f.tags = vec![("p".to_string(), vec!["x".to_string(), "def".to_string()])];
    assert!(matches_single_filter(&e, &f));
    f.tags.push(("#t".to_string(), vec!["abc".to_string()]));
    assert!(!matches_single_filter(&e, &f));
}

#[test]
fn any_filter_matches() {
    let e = event(1, vec![]);
    assert!(event_matches_filters(&e, &[]));
    let mut a = SubFilter::default();
    a.kinds = Some(vec![2]);
    let mut b = SubFilter::default();
    b.kinds = Some(vec![1]);
    assert!(!event_matches_filters(&e, &[SubFilter { kinds: Some(vec![2]), ..SubFilter::default() }]));
    assert!(event_matches_filters(&e, &[a, b]));
}

#[test]
fn filters_for_relays() {
    let none = convert_filters_to_nostr(&[], Some(42));
    assert_eq!(none.len(), 1);
    assert_eq!(none[0].since, Some(42));
    assert!(none[0].authors.is_none() && none[0].kinds.is_none() && none[0].tags.is_empty());

    let f = SubFilter {
        authors: Some(vec![KEY.to_string(), "not-a-key".to_string()]),
        kinds: Some(vec![1, 7]),
        tags: vec![
            ("#g".to_string(), vec!["u0".to_string()]),
            ("long".to_string(), vec!["x".to_string()]),
            ("P".to_string(), vec!["y".to_string()]),
            ("#1".to_string(), vec!["z".to_string()]),
        ],
    };
    let out = convert_filters_to_nostr(&[f], None);
    assert_eq!(out.len(), 1);
    assert_eq!(out[0].since, None);
    assert_eq!(out[0].authors, Some(vec![KEY.to_string()]));
    assert_eq!(out[0].kinds, Some(vec![1, 7]));
    assert_eq!(out[0].tags, vec![('g', vec!["u0".to_string()]), ('P', vec!["y".to_string()])]);
}

#[test]
fn default_config() {
    let c = Config::default();
    assert_eq!(c.sources, vec!["wss://relay.damus.io".to_string(), "wss://relay.nostr.band".to_string()]);
    assert!(c.filters.is_none());
    assert_eq!(c.sinks.len(), 1);
    assert!(matches!(c.sinks[0].processor, ProcessorType::Passthrough));
    assert_eq!(c.sinks[0].relays, vec!["wss://nos.lol".to_string()]);
    assert_eq!(c.state_file, "nef_state.json");
}
