//! Where the cluster's signals come from, and what is said when they do not come.

use vstd::prelude::*;

use crate::text::{append, chars, debug_text, find_char, position, quoted, same, slice};

verus! {

/// A source of signals.
#[derive(Clone, Debug, PartialEq, Eq)]
pub enum Source {
    /// The built-in drive cycle.
    Sim,
    /// Frames from a SocketCAN interface.
    Can(String),
    /// VSS signals from a Kuksa databroker.
    Kuksa(String),
    /// Answers of an OBD-II dongle.
    Obd(String),
}

/// What a `Source` says.
#[verifier::ext_equal]
pub enum SourceView {
    Sim,
    Can(Seq<char>),
    Kuksa(Seq<char>),
    Obd(Seq<char>),
}

impl View for Source {
    type V = SourceView;

    open spec fn view(&self) -> SourceView {
        match self {
            Source::Sim => SourceView::Sim,
            Source::Can(iface) => SourceView::Can(iface@),
            Source::Kuksa(url) => SourceView::Kuksa(url@),
            Source::Obd(link) => SourceView::Obd(link@),
        }
    }
}

/// What stands before the first colon of `var`, or all of it.
pub open spec fn kind_in(var: Seq<char>) -> Seq<char> {
    var.take(position(var, ':', 0))
}

/// What stands after the first colon of `var`, or nothing.
pub open spec fn argument_in(var: Seq<char>) -> Seq<char> {
    let colon = position(var, ':', 0);
    if colon < var.len() {
        var.skip(colon + 1)
    } else {
        Seq::empty()
    }
}

/// `given`, or `usual` if nothing is given.
pub open spec fn or_else(given: Seq<char>, usual: Seq<char>) -> Seq<char> {
    if given.len() == 0 {
        usual
    } else {
        given
    }
}

/// The source that `var` names, if it names one.
pub open spec fn source_named(var: Seq<char>) -> Option<SourceView> {
    let kind = kind_in(var);
    let arg = argument_in(var);
    if kind == "sim"@ || kind == ""@ {
        Some(SourceView::Sim)
    } else if kind == "can"@ {
        Some(SourceView::Can(or_else(arg, "can0"@)))
    } else if kind == "kuksa"@ {
        Some(SourceView::Kuksa(or_else(arg, "http://127.0.0.1:55555"@)))
    } else if kind == "obd"@ && arg.len() > 0 {
        Some(SourceView::Obd(arg))
    } else {
        None
    }
}

/// What is said of a `var` that names no source.
pub open spec fn unknown_notice(var: Seq<char>) -> Seq<char> {
    "unknown CLUSTER_SOURCE="@ + debug_text(var) + ", using the simulation"@
}

/// What comes of `var`: the source that it names, or the simulation and what is
/// said of it.
pub open spec fn selected(var: Seq<char>) -> (SourceView, Option<Seq<char>>) {
    match source_named(var) {
        Some(source) => (source, None),
        None => (SourceView::Sim, Some(unknown_notice(var))),
    }
}

fn or_usual(given: String, usual: &str) -> (s: String)
    ensures
        s@ == or_else(given@, usual@),
{
    if given.as_str().is_empty() {
        usual.to_owned()
    } else {
        given
    }
}

/// Choose where the cluster's signals come from. The value of `CLUSTER_SOURCE`
/// selects at runtime and defaults to the built-in simulation:
///
/// - `sim` -- the built-in drive cycle.
/// - `can` or `can:<iface>` -- frames from a SocketCAN interface, `can0` unless
///   named.
/// - `kuksa` or `kuksa:<url>` -- VSS signals from a Kuksa databroker,
///   `http://127.0.0.1:55555` unless named.
/// - `obd:<link>` -- an OBD-II dongle (see `Link::parse`). The link has to be
///   named.
///
/// Anything else is the simulation, too, with a notice to print.
pub fn select_source(var: &str) -> (r: (Source, Option<String>))
    ensures
        r.0@ == selected(var@).0,
        r.1 is Some == selected(var@).1 is Some,
        r.1 is Some ==> r.1->0@ == selected(var@).1->0,
        source_named(var@) matches Some(source) ==> r.0@ == source && r.1 is None,
        source_named(var@) is None ==> r.0@ == SourceView::Sim && r.1 is Some && r.1->0@
            == unknown_notice(var@),
{
    let v: Vec<char> = chars(var);
    let colon: usize = find_char(v.as_slice(), ':', 0);
    let kind: String = slice(v.as_slice(), 0, colon);
    let arg: String = if colon < v.len() {
        slice(v.as_slice(), colon + 1, v.len())
    } else {
        String::new()
    };
    assert(kind@ == kind_in(var@));
    assert(arg@ == argument_in(var@));
    if same(kind.as_str(), "sim") || same(kind.as_str(), "") {
        (Source::Sim, None)
    } else if same(kind.as_str(), "can") {
        (Source::Can(or_usual(arg, "can0")), None)
    } else if same(kind.as_str(), "kuksa") {
        (Source::Kuksa(or_usual(arg, "http://127.0.0.1:55555")), None)
    } else if same(kind.as_str(), "obd") && !arg.as_str().is_empty() {
        (Source::Obd(arg), None)
    } else {
        let start: String = append("unknown CLUSTER_SOURCE=", quoted(var).as_str());
        (Source::Sim, Some(append(start.as_str(), ", using the simulation")))
    }
}

/// The one argument among `args`, `usual` if there is none; nothing if it looks
/// like an option or more arguments follow.
pub open spec fn only_argument(args: Seq<String>, usual: Seq<char>) -> Option<Seq<char>> {
    let given = if args.len() == 1 {
        args[0]@
    } else {
        usual
    };
    if args.len() > 1 || (given.len() > 0 && given[0] == '-') {
        None
    } else {
        Some(given)
    }
}

/// The one argument of a simulated vehicle, `usual` if there is none; nothing
/// if it looks like an option or more arguments follow.
pub fn argument(args: &Vec<String>, usual: &str) -> (r: Option<String>)
    ensures
        args@.len() == 0 ==> r is Some == !(usual@.len() > 0 && usual@[0] == '-'),
        args@.len() == 0 && r is Some ==> r->0@ == usual@,
        args@.len() == 1 ==> r is Some == !(args@[0]@.len() > 0 && args@[0]@[0] == '-'),
        args@.len() == 1 && r is Some ==> r->0@ == args@[0]@,
        args@.len() > 1 ==> r is None,
        r is Some == only_argument(args@, usual@) is Some,
        r is Some ==> r->0@ == only_argument(args@, usual@)->0,
{
    if args.len() > 1 {
        return None;
    }
    let given: &str = if args.len() == 1 { args[0].as_str() } else { usual };
    let v: Vec<char> = chars(given);
    if v.len() > 0 && v[0] == '-' {
        None
    } else {
        Some(given.to_owned())
    }
}

// ----- failures --------------------------------------------------------------------

/// The failure that was last reported, so that each distinct one is reported
/// once and not once a second.
pub struct Failures {
    last: Option<String>,
}

impl View for Failures {
    type V = Option<Seq<char>>;

    closed spec fn view(&self) -> Option<Seq<char>> {
        match self.last {
            Some(s) => Some(s@),
            None => None,
        }
    }
}

/// Whether the failure `message` is to be reported after `last` was.
pub open spec fn is_news(last: Option<Seq<char>>, message: Seq<char>) -> bool {
    match last {
        Some(said) => said != message,
        None => true,
    }
}

impl Failures {
    pub fn new() -> (f: Self)
        ensures
            f@ is None,
    {
        Failures { last: None }
    }

    /// Note a failure; whether it is to be reported.
    pub fn failed(&mut self, message: &str) -> (report: bool)
        ensures
            report == (old(self)@ != Some(message@)),
            report == is_news(old(self)@, message@),
            final(self)@ == Some(message@),
    {
        let known: bool = match &self.last {
            Some(s) => same(s.as_str(), message),
            None => false,
        };
        if known {
            return false;
        }
        self.last = Some(message.to_owned());
        true
    }

    /// Things work again: the next failure is to be reported, whatever it is.
    pub fn recovered(&mut self)
        ensures
            final(self)@ is None,
    {
        self.last = None;
    }
}

/// A source is chosen by its name alone or by its name and an argument; the
/// argument may hold colons of its own. A dongle is chosen with its link only.
pub proof fn a_source_is_chosen_by_name(arg: Seq<char>)
    requires
        arg.len() > 0,
    ensures
        source_named(""@) == Some(SourceView::Sim),
        source_named("sim"@) == Some(SourceView::Sim),
        source_named("can"@) == Some(SourceView::Can("can0"@)),
        source_named("can:"@ + arg) == Some(SourceView::Can(arg)),
        source_named("kuksa"@) == Some(SourceView::Kuksa("http://127.0.0.1:55555"@)),
        source_named("kuksa:"@ + arg) == Some(SourceView::Kuksa(arg)),
        source_named("obd:"@ + arg) == Some(SourceView::Obd(arg)),
        source_named("obd"@) is None,
        source_named("obd:"@) is None,
{
    reveal_strlit("");
    reveal_strlit("sim");
    reveal_strlit("can");
    reveal_strlit("can:");
    reveal_strlit("kuksa");
    reveal_strlit("kuksa:");
    reveal_strlit("obd");
    reveal_strlit("obd:");
    assert("can"@[0] != "sim"@[0]);
    assert("obd"@[0] != "sim"@[0]);
    assert("obd"@[0] != "can"@[0]);
    assert("kuksa"@.len() == 5);
    reveal_with_fuel(position, 7);
    assert("can"@.take(3) == "can"@);
    assert("sim"@.take(3) == "sim"@);
    assert("kuksa"@.take(5) == "kuksa"@);
    assert("obd"@.take(3) == "obd"@);
    assert("obd:"@.take(3) == "obd"@);
    assert(""@.take(0) == ""@);
    let can = "can:"@ + arg;
    assert(can.take(3) == "can"@);
    assert(can.skip(4) == arg);
    let kuksa = "kuksa:"@ + arg;
    assert(kuksa.take(5) == "kuksa"@);
    assert(kuksa.skip(6) == arg);
    let obd = "obd:"@ + arg;
    assert(obd.take(3) == "obd"@);
    assert(obd.skip(4) == arg);
}

/// Whatever else `var` is, it names a source by what stands before its first
/// colon: nothing or `sim`, `can`, `kuksa`, or `obd` with a link. Anything else
/// names none.
pub proof fn which_sources_there_are(kind: Seq<char>, arg: Seq<char>)
    requires
        forall|i: int| 0 <= i < kind.len() ==> #[trigger] kind[i] != ':',
    ensures
        ({
            let alone = source_named(kind);
            let with = source_named(kind + seq![':'] + arg);
            let named = kind.len() == 0 || kind == "sim"@ || kind == "can"@ || kind == "kuksa"@;
            &&& kind.len() == 0 || kind == "sim"@ ==> alone == Some(SourceView::Sim) && with
                == Some(SourceView::Sim)
            &&& kind == "can"@ ==> alone == Some(SourceView::Can("can0"@))
            &&& kind == "can"@ && arg.len() == 0 ==> with == alone
            &&& kind == "can"@ && arg.len() > 0 ==> with == Some(SourceView::Can(arg))
            &&& kind == "kuksa"@ ==> alone == Some(SourceView::Kuksa("http://127.0.0.1:55555"@))
            &&& kind == "kuksa"@ && arg.len() == 0 ==> with == alone
            &&& kind == "kuksa"@ && arg.len() > 0 ==> with == Some(SourceView::Kuksa(arg))
            &&& !named ==> alone is None
            &&& !named && !(kind == "obd"@ && arg.len() > 0) ==> with is None
            &&& kind == "obd"@ && arg.len() > 0 ==> with == Some(SourceView::Obd(arg))
        }),
{
    let all = kind + seq![':'] + arg;
    no_colon_before(kind, 0);
    colon_is_at(all, 0, kind.len() as int);
    assert(kind.take(kind.len() as int) == kind);
    assert(all.take(kind.len() as int) == kind);
    assert(all.skip(kind.len() as int + 1) == arg);
    reveal_strlit("");
    reveal_strlit("sim");
    reveal_strlit("can");
    reveal_strlit("kuksa");
    reveal_strlit("obd");
    assert(kind.len() == 0 ==> kind == ""@);
    assert("sim"@.len() == 3 && "kuksa"@.len() == 5);
    assert("can"@[0] != "sim"@[0]);
    assert("obd"@[0] != "sim"@[0]);
    assert("obd"@[0] != "can"@[0]);
}

proof fn no_colon_before(s: Seq<char>, i: int)
    requires
        0 <= i <= s.len(),
        forall|k: int| 0 <= k < s.len() ==> #[trigger] s[k] != ':',
    ensures
        position(s, ':', i) == s.len(),
    decreases s.len() - i,
{
    if i < s.len() {
        no_colon_before(s, i + 1);
    }
}

proof fn colon_is_at(s: Seq<char>, i: int, end: int)
    requires
        0 <= i <= end < s.len(),
        forall|k: int| i <= k < end ==> s[k] != ':',
        s[end] == ':',
    ensures
        position(s, ':', i) == end,
    decreases end - i,
{
    if i < end {
        colon_is_at(s, i + 1, end);
    }
}

/// A source that is named is taken and nothing is said; a value that names none is
/// quoted in what is said of it, and the simulation is taken.
pub proof fn what_is_said_of_an_unknown_source(var: Seq<char>)
    ensures
        source_named(var) is Some ==> selected(var) == (source_named(var)->0, None::<Seq<char>>),
        source_named(var) is None ==> selected(var) == (
            SourceView::Sim,
            Some("unknown CLUSTER_SOURCE="@ + debug_text(var) + ", using the simulation"@),
        ),
        unknown_notice(var) == "unknown CLUSTER_SOURCE="@ + debug_text(var)
            + ", using the simulation"@,
{
}

/// A simulated vehicle takes no argument or one that does not begin with a dash,
/// and takes it as it is.
pub proof fn a_simulator_takes_one_argument(args: Seq<String>, usual: Seq<char>)
    ensures
        args.len() == 0 && (usual.len() == 0 || usual[0] != '-') ==> only_argument(args, usual)
            == Some(usual),
        args.len() == 1 && (args[0]@.len() == 0 || args[0]@[0] != '-') ==> only_argument(
            args,
            usual,
        ) == Some(args[0]@),
        args.len() == 1 && args[0]@.len() > 0 && args[0]@[0] == '-' ==> only_argument(args, usual)
            is None,
        args.len() > 1 ==> only_argument(args, usual) is None,
{
}

/// A failure is reported unless it is the one that was reported last.
pub proof fn each_distinct_failure_is_reported_once(first: Seq<char>, second: Seq<char>)
    ensures
        is_news(None, first),
        !is_news(Some(first), first),
        first != second ==> is_news(Some(first), second),
{
}

} // verus!
