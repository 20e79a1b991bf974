use vstd::prelude::*;
use vstd::string::*;

verus! {

/// The relays to read from, the sinks to write to, and where the state is kept.
#[derive(Clone, Debug)]
pub struct Config {
    pub sources: Vec<String>,
    /// Filters applied when subscribing to the source relays.
    pub filters: Option<Vec<SubFilter>>,
    pub sinks: Vec<SinkConfig>,
    pub state_file: String,
}

/// A subscription filter after the NIP-01 `REQ` filter: authors, kinds and tag
/// values. Each tag filter pairs a tag name, written `#e` or `e`, with the
/// values it accepts; the names are distinct.
#[derive(Clone, Debug)]
pub struct SubFilter {
    /// Authors to match, as hex public keys.
    pub authors: Option<Vec<String>>,
    /// Event kinds to match.
    pub kinds: Option<Vec<u16>>,
    /// Tag filters: a tag name and the values accepted for it.
    pub tags: Vec<(String, Vec<String>)>,
}

/// A processor and the relays that receive what it lets through.
#[derive(Clone, Debug)]
pub struct SinkConfig {
    pub processor: ProcessorType,
    pub relays: Vec<String>,
}

/// The built-in processors that a configuration can name.
#[derive(Clone, Debug)]
pub enum ProcessorType {
    Passthrough,
    WaitProcessor,
    GeohashFilter { allowed_prefixes: Vec<String> },
}

/// The views of a list of strings.
pub open spec fn strings_view(v: Seq<String>) -> Seq<Seq<char>> {
    v.map_values(|s: String| s@)
}

/// The state file used when the configuration names none.
pub fn default_state_file() -> (r: String)
    ensures
        r@ == "nef_state.json"@,
{
    String::from_str("nef_state.json")
}

impl Default for SubFilter {
    fn default() -> (r: SubFilter)
        ensures
            r.authors is None,
            r.kinds is None,
            r.tags@.len() == 0,
    {
        SubFilter { authors: None, kinds: None, tags: Vec::new() }
    }
}

impl Default for Config {
    /// Two public source relays, one passthrough sink, and the default state file.
    fn default() -> (r: Config)
        ensures
            strings_view(r.sources@) == seq!["wss://relay.damus.io"@, "wss://relay.nostr.band"@],
            r.filters is None,
            r.sinks@.len() == 1,
            r.sinks@[0].processor is Passthrough,
            strings_view(r.sinks@[0].relays@) == seq!["wss://nos.lol"@],
            r.state_file@ == "nef_state.json"@,
    {
        let sources = vec![String::from_str("wss://relay.damus.io"), String::from_str("wss://relay.nostr.band")];
        let relays = vec![String::from_str("wss://nos.lol")];
        let r = Config {
            sources,
            filters: None,
            sinks: vec![SinkConfig { processor: ProcessorType::Passthrough, relays }],
            state_file: default_state_file(),
        };
        proof {
            assert(strings_view(r.sources@) =~= seq!["wss://relay.damus.io"@, "wss://relay.nostr.band"@]);
            assert(strings_view(r.sinks@[0].relays@) =~= seq!["wss://nos.lol"@]);
        }
        r
    }
}

} // verus!
