//! How the path of a connection is described, and when its monitor ends.

use crate::text;
use vstd::prelude::*;

verus! {

/// An address without the word that says how it is reached.
pub open spec fn bare_address(address: Seq<char>) -> Seq<char> {
    if "ip:"@.is_prefix_of(address) {
        address.skip("ip:"@.len() as int)
    } else if "relay:"@.is_prefix_of(address) {
        address.skip("relay:"@.len() as int)
    } else {
        address
    }
}

/// Takes the word that says how an address is reached off its front.
pub fn strip_transport_prefix(address: &str) -> (out: String)
    ensures
        out@ == bare_address(address@),
{
    match text::strip_prefix(address, "ip:") {
        Some(rest) => rest,
        None => match text::strip_prefix(address, "relay:") {
            Some(rest) => rest,
            None => address.to_owned(),
        },
    }
}

/// A path of a connection: its remote address, whether it is direct, whether
/// it goes through a relay, and whether it is the one in use.
pub type TransportPath = (String, bool, bool, bool);

/// The addresses of the direct paths, in order.
pub open spec fn direct_addresses(paths: Seq<TransportPath>) -> Seq<Seq<char>>
    decreases paths.len(),
{
    if paths.len() == 0 {
        Seq::empty()
    } else {
        let front = direct_addresses(paths.drop_last());
        if paths.last().1 {
            front.push(bare_address(paths.last().0@))
        } else {
            front
        }
    }
}

/// The addresses of the relayed paths, in order.
pub open spec fn relay_addresses(paths: Seq<TransportPath>) -> Seq<Seq<char>>
    decreases paths.len(),
{
    if paths.len() == 0 {
        Seq::empty()
    } else {
        let front = relay_addresses(paths.drop_last());
        if paths.last().2 {
            front.push(bare_address(paths.last().0@))
        } else {
            front
        }
    }
}

/// The address of the path in use; of several the last counts.
pub open spec fn selected_address(paths: Seq<TransportPath>) -> Option<Seq<char>>
    decreases paths.len(),
{
    if paths.len() == 0 {
        None
    } else if paths.last().3 {
        Some(bare_address(paths.last().0@))
    } else {
        selected_address(paths.drop_last())
    }
}

/// The description of the paths of a connection.
pub open spec fn path_label(paths: Seq<TransportPath>) -> Seq<char> {
    let direct = direct_addresses(paths);
    let relay = relay_addresses(paths);
    if direct.len() > 0 && relay.len() == 0 {
        "direct("@ + (match selected_address(paths) {
            Some(address) => address,
            None => text::joined(direct, ", "@),
        }) + ")"@
    } else if direct.len() == 0 && relay.len() > 0 {
        "relay("@ + (match selected_address(paths) {
            Some(address) => address,
            None => text::joined(relay, ", "@),
        }) + ")"@
    } else if direct.len() > 0 {
        "mixed(direct: "@ + text::joined(direct, ", "@) + ", relay: "@ + text::joined(relay, ", "@)
            + ")"@
    } else {
        "none"@
    }
}

/// Describes the paths of a connection.
pub fn format_transport_paths(paths: &Vec<TransportPath>) -> (out: String)
    ensures
        out@ == path_label(paths@),
{
    let mut direct: Vec<String> = Vec::new();
    let mut relay: Vec<String> = Vec::new();
    let mut selected: Option<String> = None;
    for i in 0..paths.len()
        invariant
            text::texts(direct@) == direct_addresses(paths@.take(i as int)),
            text::texts(relay@) == relay_addresses(paths@.take(i as int)),
            match selected {
                Some(address) => selected_address(paths@.take(i as int)) == Some(address@),
                None => selected_address(paths@.take(i as int)) is None,
            },
    {
        let ghost next = paths@.take(i + 1);
        let ghost direct_before = direct@;
        let ghost relay_before = relay@;
        proof {
            assert(next.drop_last() =~= paths@.take(i as int));
            assert(next.last() == paths@[i as int]);
        }
        let address = strip_transport_prefix(paths[i].0.as_str());
        if paths[i].1 {
            direct.push(address.clone());
            assert(text::texts(direct@) =~= text::texts(direct_before).push(address@));
        }
        if paths[i].2 {
            relay.push(address.clone());
            assert(text::texts(relay@) =~= text::texts(relay_before).push(address@));
        }
        if paths[i].3 {
            selected = Some(address);
        }
    }
    proof {
        assert(paths@.take(paths@.len() as int) =~= paths@);
        assert(text::texts(direct@).len() == direct@.len());
        assert(text::texts(relay@).len() == relay@.len());
    }
    let mut out: String;
    if direct.len() > 0 && relay.len() == 0 {
        out = "direct(".to_owned();
        match selected {
            Some(address) => out.append(address.as_str()),
            None => out.append(text::join(&direct, ", ").as_str()),
        }
        out.append(")");
    } else if direct.len() == 0 && relay.len() > 0 {
        out = "relay(".to_owned();
        match selected {
            Some(address) => out.append(address.as_str()),
            None => out.append(text::join(&relay, ", ").as_str()),
        }
        out.append(")");
    } else if direct.len() > 0 {
        out = "mixed(direct: ".to_owned();
        out.append(text::join(&direct, ", ").as_str());
        out.append(", relay: ");
        out.append(text::join(&relay, ", ").as_str());
        out.append(")");
    } else {
        out = "none".to_owned();
    }
    out
}

/// Whether the description of a path is another one.
pub fn transport_path_changed(previous: &str, current: &str) -> (r: bool)
    ensures
        r == (previous@ != current@),
{
    !text::same(previous, current)
}

/// Whether a description is that of relayed paths alone, which may still give
/// way to a direct one.
pub fn is_relayed(label: &str) -> (r: bool)
    ensures
        r == "relay("@.is_prefix_of(label@),
{
    text::strip_prefix(label, "relay(").is_some()
}

// ---------------------------------------------------------------------------
// The monitor
// ---------------------------------------------------------------------------

/// Why the monitor of a connection ended.
#[derive(Debug, Clone, Copy, PartialEq, Eq, Structural)]
pub enum TransportMonitorExit {
    /// The connection has no path any more.
    PathLost,
    /// No more paths are reported.
    Ended,
}

/// What the monitor does with a description.
#[derive(Debug, Clone, Copy, PartialEq, Eq, Structural)]
pub enum MonitorAction {
    /// Nothing: the path is the same.
    Keep,
    /// Report the path.
    Report,
    /// Report the path and end.
    Exit(TransportMonitorExit),
}

/// The monitor of a connection.
#[derive(Debug)]
pub struct TransportMonitor {
    last_path: String,
}

impl View for TransportMonitor {
    type V = Seq<char>;

    closed spec fn view(&self) -> Seq<char> {
        self.last_path@
    }
}

/// What the monitor does with a description, and the description it keeps.
pub open spec fn monitored(last: Seq<char>, current: Seq<char>) -> (Seq<char>, MonitorAction) {
    if current == last {
        (last, MonitorAction::Keep)
    } else if current == "none"@ {
        (last, MonitorAction::Exit(TransportMonitorExit::PathLost))
    } else {
        (current, MonitorAction::Report)
    }
}

impl TransportMonitor {
    /// A monitor that starts with a description. The second result says
    /// whether it is reported: it is unless there is no path yet.
    pub fn new(initial: String) -> (out: (TransportMonitor, bool))
        ensures
            out.0@ == initial@,
            out.1 == (initial@ != "none"@),
    {
        let report = !text::same(initial.as_str(), "none");
        (TransportMonitor { last_path: initial }, report)
    }

    /// Takes in a description.
    pub fn observe(&mut self, current: &str) -> (action: MonitorAction)
        ensures
            (final(self)@, action) == monitored(old(self)@, current@),
    {
        if !transport_path_changed(self.last_path.as_str(), current) {
            return MonitorAction::Keep;
        }
        if text::same(current, "none") {
            return MonitorAction::Exit(TransportMonitorExit::PathLost);
        }
        self.last_path = current.to_owned();
        MonitorAction::Report
    }
}

// ---------------------------------------------------------------------------
// Laws
// ---------------------------------------------------------------------------

/// The first letters of a description say which paths there are: direct ones,
/// relayed ones, both, or none.
pub proof fn law_labels_tell_paths_apart(paths: Seq<TransportPath>)
    ensures
        "direct("@.is_prefix_of(path_label(paths)) <==> direct_addresses(paths).len() > 0
            && relay_addresses(paths).len() == 0,
        "relay("@.is_prefix_of(path_label(paths)) <==> direct_addresses(paths).len() == 0
            && relay_addresses(paths).len() > 0,
        "mixed("@.is_prefix_of(path_label(paths)) <==> direct_addresses(paths).len() > 0
            && relay_addresses(paths).len() > 0,
        path_label(paths) == "none"@ <==> direct_addresses(paths).len() == 0 && relay_addresses(
            paths,
        ).len() == 0,
{
    reveal_strlit("direct(");
    reveal_strlit("relay(");
    reveal_strlit("mixed(");
    reveal_strlit("mixed(direct: ");
    reveal_strlit("none");
    let label = path_label(paths);
    let direct = direct_addresses(paths);
    let relay = relay_addresses(paths);
    if direct.len() > 0 && relay.len() == 0 {
        assert(label.subrange(0, 7) =~= "direct("@);
        assert(label[0] == 'd');
    } else if direct.len() == 0 && relay.len() > 0 {
        assert(label.subrange(0, 6) =~= "relay("@);
        assert(label[0] == 'r');
    } else if direct.len() > 0 {
        assert(label.subrange(0, 6) =~= "mixed("@);
        assert(label[0] == 'm');
    } else {
        assert(label[0] == 'n');
    }
    assert("direct("@.is_prefix_of(label) ==> label[0] == 'd') by {
        if "direct("@.is_prefix_of(label) {
            assert(label.subrange(0, 7)[0] == 'd');
        }
    }
    assert("relay("@.is_prefix_of(label) ==> label[0] == 'r') by {
        if "relay("@.is_prefix_of(label) {
            assert(label.subrange(0, 6)[0] == 'r');
        }
    }
    assert("mixed("@.is_prefix_of(label) ==> label[0] == 'm') by {
        if "mixed("@.is_prefix_of(label) {
            assert(label.subrange(0, 6)[0] == 'm');
        }
    }
    assert(label == "none"@ ==> label[0] == 'n');
}

/// A path is reported once: the same description again is passed over.
pub proof fn law_same_path_is_not_reported_again(last: Seq<char>, current: Seq<char>)
    ensures
        monitored(last, current).1 == MonitorAction::Report ==> monitored(
            monitored(last, current).0,
            current,
        ) == (current, MonitorAction::Keep),
{
}

/// An address is told without the word in front that says how it is reached;
/// any other address is told as it is.
pub proof fn law_bare_address(address: Seq<char>)
    ensures
        bare_address("ip:"@ + address) == address,
        bare_address("relay:"@ + address) == address,
        !"ip:"@.is_prefix_of(address) && !"relay:"@.is_prefix_of(address) ==> bare_address(address)
            == address,
{
    reveal_strlit("ip:");
    reveal_strlit("relay:");
    let direct = "ip:"@ + address;
    let relayed = "relay:"@ + address;
    assert("ip:"@ =~= direct.subrange(0, 3));
    assert(direct.skip(3) =~= address);
    assert("relay:"@ =~= relayed.subrange(0, 6));
    assert(relayed.skip(6) =~= address);
    if "ip:"@.is_prefix_of(relayed) {
        assert(relayed.subrange(0, 3)[0] == 'i');
        assert(relayed[0] == 'r');
    }
}

/// The addresses of direct and of relayed paths are those of the paths that
/// are so, in order, and the address in use is that of the last path that is.
pub proof fn law_addresses(paths: Seq<TransportPath>, i: int)
    ensures
        direct_addresses(paths) == paths.filter(|p: TransportPath| p.1).map_values(
            |p: TransportPath| bare_address(p.0@),
        ),
        relay_addresses(paths) == paths.filter(|p: TransportPath| p.2).map_values(
            |p: TransportPath| bare_address(p.0@),
        ),
        0 <= i < paths.len() && paths[i].3 && (forall|j: int|
            i < j < paths.len() ==> !(#[trigger] paths[j]).3) ==> selected_address(paths) == Some(
            bare_address(paths[i].0@),
        ),
        selected_address(paths) is None <==> forall|j: int|
            0 <= j < paths.len() ==> !(#[trigger] paths[j]).3,
    decreases paths.len(),
{
    reveal(Seq::filter);
    let direct = paths.filter(|p: TransportPath| p.1).map_values(
        |p: TransportPath| bare_address(p.0@),
    );
    let relay = paths.filter(|p: TransportPath| p.2).map_values(
        |p: TransportPath| bare_address(p.0@),
    );
    if paths.len() == 0 {
        assert(direct_addresses(paths) =~= direct);
        assert(relay_addresses(paths) =~= relay);
    } else {
        let front = paths.drop_last();
        law_addresses(front, i);
        assert(direct_addresses(paths) =~= direct);
        assert(relay_addresses(paths) =~= relay);
        assert(paths[paths.len() - 1] == paths.last());
        assert(forall|j: int| 0 <= j < front.len() ==> front[j] == paths[j]);
        if selected_address(paths) is None {
            assert forall|j: int| 0 <= j < paths.len() implies !(#[trigger] paths[j]).3 by {
                if j < front.len() {
                    assert(!front[j].3);
                }
            }
        }
        if forall|j: int| 0 <= j < paths.len() ==> !(#[trigger] paths[j]).3 {
            assert forall|j: int| 0 <= j < front.len() implies !(#[trigger] front[j]).3 by {
                assert(!paths[j].3);
            }
        }
        if 0 <= i < front.len() && (forall|j: int|
            i < j < paths.len() ==> !(#[trigger] paths[j]).3) {
            assert(!paths[paths.len() - 1].3);
            assert forall|j: int| i < j < front.len() implies !(#[trigger] front[j]).3 by {
                assert(!paths[j].3);
            }
        }
    }
}

/// The description of paths of one sort tells the address in use, or all of
/// them if none is; that of paths of both sorts tells all of both.
pub proof fn law_path_labels(paths: Seq<TransportPath>)
    ensures
        ({
            let direct = direct_addresses(paths);
            let relay = relay_addresses(paths);
            let label = path_label(paths);
            &&& direct.len() > 0 && relay.len() == 0 && selected_address(paths) is Some ==> label
                == "direct("@ + selected_address(paths)->0 + ")"@
            &&& direct.len() > 0 && relay.len() == 0 && selected_address(paths) is None ==> label
                == "direct("@ + text::joined(direct, ", "@) + ")"@
            &&& direct.len() == 0 && relay.len() > 0 && selected_address(paths) is Some ==> label
                == "relay("@ + selected_address(paths)->0 + ")"@
            &&& direct.len() == 0 && relay.len() > 0 && selected_address(paths) is None ==> label
                == "relay("@ + text::joined(relay, ", "@) + ")"@
            &&& direct.len() > 0 && relay.len() > 0 ==> label == "mixed(direct: "@ + text::joined(
                direct,
                ", "@,
            ) + ", relay: "@ + text::joined(relay, ", "@) + ")"@
            &&& direct.len() == 0 && relay.len() == 0 ==> label == "none"@
        }),
{
}

/// A monitor ends exactly when the connection loses its path. It reports every
/// other path that is not the last one, and passes that over.
pub proof fn law_monitor(last: Seq<char>, current: Seq<char>)
    ensures
        monitored(last, current).1 == MonitorAction::Keep <==> current == last,
        monitored(last, current).1 == MonitorAction::Exit(TransportMonitorExit::PathLost)
            <==> current != last && current == "none"@,
        monitored(last, current).1 == MonitorAction::Report <==> current != last && current
            != "none"@,
        current != "none"@ ==> monitored(last, current).0 == current,
{
}

} // verus!
