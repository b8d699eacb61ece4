use vstd::prelude::*;

use crate::error::Error;

verus! {

/// `suffix` ends `s`.
pub open spec fn has_suffix(s: Seq<char>, suffix: Seq<char>) -> bool {
    s.len() >= suffix.len() && s.subrange(s.len() - suffix.len(), s.len() as int) == suffix
}

/// `prefix` starts `s`.
pub open spec fn has_prefix(s: Seq<char>, prefix: Seq<char>) -> bool {
    s.len() >= prefix.len() && s.subrange(0, prefix.len() as int) == prefix
}

/// `part` occurs somewhere in `s`.
pub open spec fn has_infix(s: Seq<char>, part: Seq<char>) -> bool {
    exists|k: int| 0 <= k <= s.len() - part.len() && #[trigger] s.subrange(k, k + part.len()) == part
}

pub open spec fn fl_suffix() -> Seq<char> {
    seq!['_', 'F', 'L']
}

pub open spec fn fr_suffix() -> Seq<char> {
    seq!['_', 'F', 'R']
}

pub open spec fn mono_suffix() -> Seq<char> {
    seq!['_', 'M', 'O', 'N', 'O']
}

/// Index of the last name in `names` that ends with `suffix`.
pub open spec fn last_with_suffix(names: Seq<Seq<char>>, suffix: Seq<char>) -> Option<int>
    decreases names.len(),
{
    if names.len() == 0 {
        None
    } else if has_suffix(names.last(), suffix) {
        Some(names.len() - 1)
    } else {
        last_with_suffix(names.drop_last(), suffix)
    }
}

/// The name at the index `pick` gives, if any.
pub open spec fn picked(names: Seq<Seq<char>>, pick: Option<int>) -> Option<Seq<char>> {
    match pick {
        Some(i) => Some(names[i]),
        None => None,
    }
}

/// The views of a list of strings.
pub open spec fn names_view(names: Seq<String>) -> Seq<Seq<char>> {
    names.map_values(|s: String| s@)
}

/// The view of an optional string.
pub open spec fn opt_view(o: Option<String>) -> Option<Seq<char>> {
    match o {
        Some(s) => Some(s@),
        None => None,
    }
}

/// The part of a port name `client:port` before the first colon (the whole
/// name when it has none).
pub open spec fn client_of(port: Seq<char>) -> Seq<char>
    decreases port.len(),
{
    if port.len() == 0 || port[0] == ':' {
        Seq::empty()
    } else {
        seq![port[0]] + client_of(port.drop_first())
    }
}

/// Characters with a meaning in a regular expression.
pub open spec fn is_meta_character(c: char) -> bool {
    c == '\\' || c == '.' || c == '+' || c == '*' || c == '?' || c == '(' || c == ')' || c == '|'
        || c == '[' || c == ']' || c == '{' || c == '}' || c == '^' || c == '$' || c == '#'
        || c == '&' || c == '-' || c == '~'
}

/// `s` with a backslash before each meta character: a regular expression
/// that matches `s` literally.
pub open spec fn regex_escaped(s: Seq<char>) -> Seq<char>
    decreases s.len(),
{
    if s.len() == 0 {
        s
    } else if is_meta_character(s.last()) {
        regex_escaped(s.drop_last()) + seq!['\\', s.last()]
    } else {
        regex_escaped(s.drop_last()).push(s.last())
    }
}

/// Relies on regex::escape: a backslash is put before each of the
/// characters `\ . + * ? ( ) | [ ] { } ^ $ # & - ~`, the others are kept.
#[verifier::external_body]
fn escape_regex(s: &str) -> (r: String)
    ensures
        r@ == regex_escaped(s@),
{
    regex::escape(s)
}

/// A pattern that matches the port names containing `name` literally, to
/// look a device's ports up.
pub fn port_name_pattern(name: &str) -> (r: String)
    ensures
        r@ == regex_escaped(name@),
{
    escape_regex(name)
}

/// Whether `s` ends with `suffix`.
pub fn ends_with(s: &str, suffix: &str) -> (r: bool)
    ensures
        r == has_suffix(s@, suffix@),
{
    let n = s.unicode_len();
    let m = suffix.unicode_len();
    if m > n {
        return false;
    }
    let mut k: usize = 0;
    while k < m
        invariant
            n == s@.len(),
            m == suffix@.len(),
            m <= n,
            k <= m,
            forall|j: int| 0 <= j < k ==> s@[n - m + j] == suffix@[j],
        decreases m - k,
    {
        if s.get_char(n - m + k) != suffix.get_char(k) {
            assert(s@.subrange(n - m, n as int)[k as int] != suffix@[k as int]);
            return false;
        }
        k = k + 1;
    }
    assert(s@.subrange(n - m, n as int) =~= suffix@);
    true
}

/// Whether `s` starts with `prefix`.
pub fn starts_with(s: &str, prefix: &str) -> (r: bool)
    ensures
        r == has_prefix(s@, prefix@),
{
    let n = s.unicode_len();
    let m = prefix.unicode_len();
    if m > n {
        return false;
    }
    let mut k: usize = 0;
    while k < m
        invariant
            n == s@.len(),
            m == prefix@.len(),
            m <= n,
            k <= m,
            forall|j: int| 0 <= j < k ==> s@[j] == prefix@[j],
        decreases m - k,
    {
        if s.get_char(k) != prefix.get_char(k) {
            assert(s@.subrange(0, m as int)[k as int] != prefix@[k as int]);
            return false;
        }
        k = k + 1;
    }
    assert(s@.subrange(0, m as int) =~= prefix@);
    true
}

/// Whether `part` occurs in `s`.
pub fn contains_str(s: &str, part: &str) -> (r: bool)
    ensures
        r == has_infix(s@, part@),
{
    let n = s.unicode_len();
    let m = part.unicode_len();
    if m > n {
        return false;
    }
    if m == 0 {
        assert(s@.subrange(0int, 0int + part@.len()) =~= part@);
        return true;
    }
    let mut k: usize = 0;
    while k <= n - m
        invariant
            n == s@.len(),
            m == part@.len(),
            0 < m <= n,
            k <= n - m + 1,
            forall|q: int| 0 <= q < k ==> #[trigger] s@.subrange(q, q + m) != part@,
        decreases n - m + 1 - k,
    {
        let mut j: usize = 0;
        let mut same = true;
        while j < m
            invariant
                n == s@.len(),
                m == part@.len(),
                k + m <= n,
                j <= m,
                same ==> forall|p: int| 0 <= p < j ==> s@[k + p] == part@[p],
                !same ==> s@.subrange(k as int, k + m) != part@,
            decreases m - j,
        {
            if s.get_char(k + j) != part.get_char(j) {
                assert(s@.subrange(k as int, k + m)[j as int] != part@[j as int]);
                same = false;
            }
            j = j + 1;
        }
        if same {
            assert(s@.subrange(k as int, k + m) =~= part@);
            return true;
        }
        k = k + 1;
    }
    false
}

/// The prefix of `s` before a position `k` that is its first colon, or its
/// end, is `client_of(s)`.
proof fn lemma_client_of(s: Seq<char>, k: int)
    requires
        0 <= k <= s.len(),
        forall|j: int| 0 <= j < k ==> s[j] != ':',
        k == s.len() || s[k] == ':',
    ensures
        client_of(s) == s.subrange(0, k),
    decreases k,
{
    if k > 0 {
        lemma_client_of(s.drop_first(), k - 1);
        assert(s.subrange(0, k) =~= seq![s[0]] + s.drop_first().subrange(0, k - 1));
    } else {
        assert(s.subrange(0, 0) =~= Seq::<char>::empty());
    }
}

/// The client part of a port name: what comes before the first colon.
pub fn client_name(port: &str) -> (r: String)
    ensures
        r@ == client_of(port@),
{
    let n = port.unicode_len();
    let mut k: usize = 0;
    while k < n && port.get_char(k) != ':'
        invariant
            n == port@.len(),
            k <= n,
            forall|j: int| 0 <= j < k ==> port@[j] != ':',
        decreases n - k,
    {
        k = k + 1;
    }
    proof {
        lemma_client_of(port@, k as int);
    }
    port.substring_char(0, k).to_owned()
}

/// Whether `names` holds a string equal to `s`.
pub fn contains_name(names: &Vec<String>, s: &str) -> (r: bool)
    ensures
        r == names_view(names@).contains(s@),
{
    let mut k: usize = 0;
    while k < names.len()
        invariant
            k <= names@.len(),
            forall|j: int| 0 <= j < k ==> names@[j]@ != s@,
        decreases names@.len() - k,
    {
        if string_eq(names[k].as_str(), s) {
            assert(names_view(names@)[k as int] == s@);
            return true;
        }
        k = k + 1;
    }
    assert(!names_view(names@).contains(s@)) by {
        if names_view(names@).contains(s@) {
            let j = choose|j: int| 0 <= j < names_view(names@).len() && names_view(names@)[j] == s@;
            assert(names@[j]@ == s@);
        }
    }
    false
}

/// Whether two strings hold the same characters.
pub fn string_eq(a: &str, b: &str) -> (r: bool)
    ensures
        r == (a@ == b@),
{
    let n = a.unicode_len();
    let m = b.unicode_len();
    if n != m {
        return false;
    }
    let mut k: usize = 0;
    while k < n
        invariant
            n == a@.len() == b@.len(),
            k <= n,
            forall|j: int| 0 <= j < k ==> a@[j] == b@[j],
        decreases n - k,
    {
        if a.get_char(k) != b.get_char(k) {
            return false;
        }
        k = k + 1;
    }
    assert(a@ =~= b@);
    true
}

/// `name` is the client part of one of the port names `ports`.
pub open spec fn is_client_in(name: Seq<char>, ports: Seq<Seq<char>>) -> bool {
    exists|j: int| 0 <= j < ports.len() && name == client_of(#[trigger] ports[j])
}

/// The distinct client names among port names `client:port`.
pub fn client_names(ports: &Vec<String>) -> (r: Vec<String>)
    ensures
        forall|i: int| 0 <= i < r@.len() ==> is_client_in(#[trigger] r@[i]@, names_view(ports@)),
        forall|j: int| 0 <= j < ports@.len() ==> names_view(r@).contains(client_of(#[trigger] ports@[j]@)),
        forall|i1: int, i2: int| 0 <= i1 < i2 < r@.len() ==> #[trigger] r@[i1]@ != #[trigger] r@[i2]@,
{
    let mut out: Vec<String> = Vec::new();
    let mut k: usize = 0;
    while k < ports.len()
        invariant
            k <= ports@.len(),
            forall|i: int| 0 <= i < out@.len() ==> is_client_in(#[trigger] out@[i]@, names_view(ports@)),
            forall|j: int| 0 <= j < k ==> names_view(out@).contains(client_of(#[trigger] ports@[j]@)),
            forall|i1: int, i2: int| 0 <= i1 < i2 < out@.len() ==> #[trigger] out@[i1]@ != #[trigger] out@[i2]@,
        decreases ports@.len() - k,
    {
        let name = client_name(ports[k].as_str());
        if !contains_name(&out, name.as_str()) {
            let ghost before = out@;
            out.push(name);
            proof {
                assert(names_view(ports@)[k as int] == ports@[k as int]@);
                assert(is_client_in(out@[before.len() as int]@, names_view(ports@)));
                assert(names_view(out@)[before.len() as int] == client_of(ports@[k as int]@));
                assert forall|j: int| 0 <= j < k implies names_view(out@).contains(client_of(#[trigger] ports@[j]@)) by {
                    let i = choose|i: int| 0 <= i < names_view(before).len() && names_view(before)[i] == client_of(ports@[j]@);
                    assert(names_view(out@)[i] == client_of(ports@[j]@));
                }
                assert forall|i1: int, i2: int| 0 <= i1 < i2 < out@.len() implies #[trigger] out@[i1]@ != #[trigger] out@[i2]@ by {
                    if i2 == before.len() {
                        assert(names_view(before)[i1] == before[i1]@);
                    }
                }
            }
        }
        k = k + 1;
    }
    out
}

/// One of the engine's own ports.
#[derive(Debug, Clone, Copy, PartialEq, Eq, Structural)]
pub enum EnginePort {
    InputFl,
    InputFr,
    OutputFl,
    OutputFr,
    Control,
}

/// A connection to make between a peer port, by name, and an engine port.
#[derive(Debug, Clone)]
pub struct Connection {
    pub peer: String,
    pub port: EnginePort,
}

/// The connections of a plan, as names and ports.
pub open spec fn plan_view(plan: Seq<Connection>) -> Seq<(Seq<char>, EnginePort)> {
    plan.map_values(|c: Connection| (c.peer@, c.port))
}

/// How a device's ports pair with the engine's left and right ports (its
/// inputs when `inputs`, else its outputs): a left and a right port if it
/// has both, else its mono port on both sides. None when it has neither.
pub open spec fn stereo_or_mono(names: Seq<Seq<char>>, inputs: bool) -> Option<Seq<(Seq<char>, EnginePort)>> {
    let fl = picked(names, last_with_suffix(names, fl_suffix()));
    let fr = picked(names, last_with_suffix(names, fr_suffix()));
    let mono = picked(names, last_with_suffix(names, mono_suffix()));
    let left = if inputs { EnginePort::InputFl } else { EnginePort::OutputFl };
    let right = if inputs { EnginePort::InputFr } else { EnginePort::OutputFr };
    if fl is Some && fr is Some {
        Some(seq![(fl->0, left), (fr->0, right)])
    } else if mono is Some {
        Some(seq![(mono->0, left), (mono->0, right)])
    } else {
        None
    }
}

/// The connections that subscribe the engine to the source device `source`
/// with output ports `names`: stereo or mono audio into the inputs, or a
/// single MIDI port (the device being one of `midi`) into the control port.
pub open spec fn source_plan(source: Seq<char>, names: Seq<Seq<char>>, midi: Seq<Seq<char>>) -> Option<Seq<(Seq<char>, EnginePort)>> {
    match stereo_or_mono(names, true) {
        Some(p) => Some(p),
        None => if names.len() == 1 && midi.contains(source) {
            Some(seq![(names[0], EnginePort::Control)])
        } else {
            None
        },
    }
}

/// The labels of `names`, as views.
pub open spec fn labels_match(l: LabeledPorts, names: Seq<Seq<char>>) -> bool {
    &&& opt_view(l.fl) == picked(names, last_with_suffix(names, fl_suffix()))
    &&& opt_view(l.fr) == picked(names, last_with_suffix(names, fr_suffix()))
    &&& opt_view(l.mono) == picked(names, last_with_suffix(names, mono_suffix()))
}

/// Two connections from the left and right peer ports to `left`/`right`.
fn pair_plan(fl: &String, fr: &String, left: EnginePort, right: EnginePort) -> (r: Vec<Connection>)
    ensures
        plan_view(r@) == seq![(fl@, left), (fr@, right)],
{
    let mut v: Vec<Connection> = Vec::new();
    v.push(Connection { peer: fl.clone(), port: left });
    v.push(Connection { peer: fr.clone(), port: right });
    assert(plan_view(v@) =~= seq![(fl@, left), (fr@, right)]);
    v
}

/// The connections that pair a device's left/right or mono ports with the
/// engine's, or None.
fn pair_ports(labeled: &LabeledPorts, inputs: bool, names: Ghost<Seq<Seq<char>>>) -> (r: Option<Vec<Connection>>)
    requires
        labels_match(*labeled, names@),
    ensures
        match stereo_or_mono(names@, inputs) {
            Some(p) => r is Some && plan_view(r->0@) == p,
            None => r is None,
        },
{
    let left = if inputs { EnginePort::InputFl } else { EnginePort::OutputFl };
    let right = if inputs { EnginePort::InputFr } else { EnginePort::OutputFr };
    match (&labeled.fl, &labeled.fr) {
        (Some(fl), Some(fr)) => Some(pair_plan(fl, fr, left, right)),
        _ => match &labeled.mono {
            Some(mono) => Some(pair_plan(mono, mono, left, right)),
            None => None,
        },
    }
}

/// The connections that subscribe the engine to the device `source_name`,
/// whose output ports are `port_names`; `midi_sources` names the MIDI
/// devices. No ports: `SourceNotFound`. Ports that are neither stereo, mono
/// nor a single MIDI port: `UnexpectedPortFormat`.
pub fn subscription_plan(source_name: &str, port_names: &Vec<String>, midi_sources: &Vec<String>) -> (r: Result<Vec<Connection>, Error>)
    ensures
        port_names@.len() == 0 ==> (r matches Err(Error::SourceNotFound { source_name: s }) && s@ == source_name@),
        port_names@.len() > 0 ==> match source_plan(source_name@, names_view(port_names@), names_view(midi_sources@)) {
            Some(p) => r is Ok && plan_view(r->Ok_0@) == p,
            None => r matches Err(Error::UnexpectedPortFormat { client_name: c, labeled_ports: l })
                && c@ == source_name@ && labels_match(l, names_view(port_names@)),
        },
{
    if port_names.len() == 0 {
        return Err(Error::SourceNotFound { source_name: source_name.to_owned() });
    }
    let labeled = LabeledPorts::from_ports_names(port_names);
    match pair_ports(&labeled, true, Ghost(names_view(port_names@))) {
        Some(plan) => Ok(plan),
        None => {
            if port_names.len() == 1 && contains_name(midi_sources, source_name) {
                let mut v: Vec<Connection> = Vec::new();
                v.push(Connection { peer: port_names[0].clone(), port: EnginePort::Control });
                assert(plan_view(v@) =~= seq![(names_view(port_names@)[0], EnginePort::Control)]);
                Ok(v)
            } else {
                Err(Error::UnexpectedPortFormat { client_name: source_name.to_owned(), labeled_ports: labeled })
            }
        },
    }
}

/// The connections that publish the engine's output to the device
/// `sink_name`, whose input ports are `port_names`. No ports:
/// `SinkNotFound`. Ports that are neither stereo nor mono:
/// `UnexpectedPortFormat`.
pub fn publish_plan(sink_name: &str, port_names: &Vec<String>) -> (r: Result<Vec<Connection>, Error>)
    ensures
        port_names@.len() == 0 ==> (r matches Err(Error::SinkNotFound { sink_name: s }) && s@ == sink_name@),
        port_names@.len() > 0 ==> match stereo_or_mono(names_view(port_names@), false) {
            Some(p) => r is Ok && plan_view(r->Ok_0@) == p,
            None => r matches Err(Error::UnexpectedPortFormat { client_name: c, labeled_ports: l })
                && c@ == sink_name@ && labels_match(l, names_view(port_names@)),
        },
{
    if port_names.len() == 0 {
        return Err(Error::SinkNotFound { sink_name: sink_name.to_owned() });
    }
    let labeled = LabeledPorts::from_ports_names(port_names);
    match pair_ports(&labeled, false, Ghost(names_view(port_names@))) {
        Some(plan) => Ok(plan),
        None => Err(Error::UnexpectedPortFormat { client_name: sink_name.to_owned(), labeled_ports: labeled }),
    }
}

/// Whether a peer connected to `port` belongs to the device `source`: its
/// name starts with the device name on audio inputs, and contains it on the
/// control port.
pub open spec fn belongs_to(peer: Seq<char>, source: Seq<char>, port: EnginePort) -> bool {
    if port == EnginePort::Control {
        has_infix(peer, source)
    } else {
        has_prefix(peer, source)
    }
}

/// The peers among `peers` that belong to `source` on `port`, in order.
pub open spec fn peers_of(peers: Seq<Seq<char>>, source: Seq<char>, port: EnginePort) -> Seq<Seq<char>>
    decreases peers.len(),
{
    if peers.len() == 0 {
        peers
    } else if belongs_to(peers.last(), source, port) {
        peers_of(peers.drop_last(), source, port).push(peers.last())
    } else {
        peers_of(peers.drop_last(), source, port)
    }
}

/// The peers connected to `port` that unsubscribing from `source_name`
/// disconnects.
pub fn peers_to_disconnect(source_name: &str, connections: &Vec<String>, port: EnginePort) -> (r: Vec<String>)
    ensures
        names_view(r@) == peers_of(names_view(connections@), source_name@, port),
{
    let ghost names = names_view(connections@);
    let mut out: Vec<String> = Vec::new();
    let mut k: usize = 0;
    while k < connections.len()
        invariant
            k <= connections@.len(),
            names == names_view(connections@),
            names_view(out@) == peers_of(names.subrange(0, k as int), source_name@, port),
        decreases connections@.len() - k,
    {
        let peer = &connections[k];
        proof {
            assert(names.subrange(0, k + 1).drop_last() =~= names.subrange(0, k as int));
            assert(names.subrange(0, k + 1).last() == peer@);
        }
        let keep = match port {
            EnginePort::Control => contains_str(peer.as_str(), source_name),
            _ => starts_with(peer.as_str(), source_name),
        };
        if keep {
            let ghost before = out@;
            out.push(peer.clone());
            assert(names_view(out@) =~= names_view(before).push(peer@));
        }
        k = k + 1;
    }
    assert(names.subrange(0, connections@.len() as int) =~= names);
    out
}

/// A device's ports sorted by the suffix of their names.
#[derive(Debug, Clone)]
pub struct LabeledPorts {
    pub fl: Option<String>,
    pub fr: Option<String>,
    pub mono: Option<String>,
}

impl LabeledPorts {
    /// Sorts ports by name: the last name ending in `_FL` is the left port,
    /// the last ending in `_FR` the right one, the last ending in `_MONO`
    /// the mono one.
    pub fn from_ports_names(port_names: &Vec<String>) -> (r: LabeledPorts)
        ensures
            opt_view(r.fl) == picked(names_view(port_names@), last_with_suffix(names_view(port_names@), fl_suffix())),
            opt_view(r.fr) == picked(names_view(port_names@), last_with_suffix(names_view(port_names@), fr_suffix())),
            opt_view(r.mono) == picked(names_view(port_names@), last_with_suffix(names_view(port_names@), mono_suffix())),
    {
        let ghost names = names_view(port_names@);
        let mut fl: Option<String> = None;
        let mut fr: Option<String> = None;
        let mut mono: Option<String> = None;
        proof {
            reveal_strlit("_FL");
            reveal_strlit("_FR");
            reveal_strlit("_MONO");
            assert("_FL"@ =~= fl_suffix());
            assert("_FR"@ =~= fr_suffix());
            assert("_MONO"@ =~= mono_suffix());
        }
        let mut k: usize = 0;
        while k < port_names.len()
            invariant
                k <= port_names@.len(),
                names == names_view(port_names@),
                "_FL"@ == fl_suffix(),
                "_FR"@ == fr_suffix(),
                "_MONO"@ == mono_suffix(),
                opt_view(fl) == picked(names, last_with_suffix(names.subrange(0, k as int), fl_suffix())),
                opt_view(fr) == picked(names, last_with_suffix(names.subrange(0, k as int), fr_suffix())),
                opt_view(mono) == picked(names, last_with_suffix(names.subrange(0, k as int), mono_suffix())),
            decreases port_names@.len() - k,
        {
            let name = &port_names[k];
            proof {
                assert(names.subrange(0, k + 1).drop_last() =~= names.subrange(0, k as int));
                assert(names.subrange(0, k + 1).last() == name@);
                lemma_suffixes_exclusive(name@);
            }
            if ends_with(name.as_str(), "_FL") {
                fl = Some(name.clone());
            } else if ends_with(name.as_str(), "_FR") {
                fr = Some(name.clone());
            } else if ends_with(name.as_str(), "_MONO") {
                mono = Some(name.clone());
            }
            k = k + 1;
        }
        assert(names.subrange(0, port_names@.len() as int) =~= names);
        LabeledPorts { fl, fr, mono }
    }
}

/// No name ends with two of the port suffixes.
proof fn lemma_suffixes_exclusive(s: Seq<char>)
    ensures
        !(has_suffix(s, fl_suffix()) && has_suffix(s, fr_suffix())),
        !(has_suffix(s, fl_suffix()) && has_suffix(s, mono_suffix())),
        !(has_suffix(s, fr_suffix()) && has_suffix(s, mono_suffix())),
{
    if has_suffix(s, fl_suffix()) {
        assert(s.subrange(s.len() - 3, s.len() as int)[2] == 'L');
        assert(s.last() == 'L');
    }
    if has_suffix(s, fr_suffix()) {
        assert(s.subrange(s.len() - 3, s.len() as int)[2] == 'R');
        assert(s.last() == 'R');
    }
    if has_suffix(s, mono_suffix()) {
        assert(s.subrange(s.len() - 5, s.len() as int)[4] == 'O');
        assert(s.last() == 'O');
    }
}

} // verus!
