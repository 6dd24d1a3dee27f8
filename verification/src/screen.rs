//! Panel selection and small per-panel state machines.

use vstd::prelude::*;

verus! {

/// Which panel the dashboard currently shows.
pub enum CurrentScreen {
    Dashboard,
    Ping,
    Dns,
    Sniffer,
    Mtr,
    Nmap,
    Connections,
    ArpScan,
}

/// Zones of the screen for hit testing.
#[derive(Clone, Copy, Debug)]
pub enum UiZone {
    Tab(usize),
    PingInput,
    PingStartStop,
    DnsInput,
    DnsTypeNext,
}

/// The DNS record types the lookup panel cycles through.
#[derive(Clone, Copy, Debug, PartialEq, Eq, Structural)]
pub enum DnsRecordKind {
    A,
    Aaaa,
    Mx,
    Txt,
    Ns,
}

impl DnsRecordKind {
    /// The record type after this one in the panel's cycle:
    /// A, AAAA, MX, TXT, NS, and around again.
    pub fn next_dns_record_type(self) -> (r: DnsRecordKind)
        ensures
            r == (match self {
                DnsRecordKind::A => DnsRecordKind::Aaaa,
                DnsRecordKind::Aaaa => DnsRecordKind::Mx,
                DnsRecordKind::Mx => DnsRecordKind::Txt,
                DnsRecordKind::Txt => DnsRecordKind::Ns,
                DnsRecordKind::Ns => DnsRecordKind::A,
            }),
    {
        match self {
            DnsRecordKind::A => DnsRecordKind::Aaaa,
            DnsRecordKind::Aaaa => DnsRecordKind::Mx,
            DnsRecordKind::Mx => DnsRecordKind::Txt,
            DnsRecordKind::Txt => DnsRecordKind::Ns,
            DnsRecordKind::Ns => DnsRecordKind::A,
        }
    }
}

/// The flag options offered by each panel's options popup: the flag, a
/// description, and the text inserted into the input line.  Panels without
/// flag options offer none.
pub fn get_tool_options(screen: &CurrentScreen) -> (r: Vec<
    (&'static str, &'static str, &'static str),
>)
    ensures
        ({
            let n: int = match screen {
                CurrentScreen::Ping => 3,
                CurrentScreen::Mtr => 3,
                CurrentScreen::Nmap => 5,
                CurrentScreen::ArpScan => 4,
                _ => 0,
            };
            r@.len() == n
        }),
        screen is Ping ==> r@[0].0@ == seq!['-', 'i'] && r@[1].0@ == seq!['-', 's'] && r@[2].0@
            == seq!['-', 'c'],
        screen is Mtr ==> r@[0].0@ == seq!['-', 'i'] && r@[1].0@ == seq!['-', 'm'] && r@[2].0@
            == seq!['-', 'c'],
{
    proof {
        reveal_strlit("-i");
        reveal_strlit("-s");
        reveal_strlit("-c");
        reveal_strlit("-m");
    }
    match screen {
        CurrentScreen::Ping => {
            let mut r: Vec<(&'static str, &'static str, &'static str)> = Vec::new();
            r.push(("-i", "Interval (seconds)", " -i 0.5"));
            r.push(("-s", "Payload Size (bytes)", " -s 128"));
            r.push(("-c", "Count (limit)", " -c 5"));
            proof {
                assert(r@[0].0@ =~= seq!['-', 'i']);
                assert(r@[1].0@ =~= seq!['-', 's']);
                assert(r@[2].0@ =~= seq!['-', 'c']);
            }
            r
        },
        CurrentScreen::Mtr => {
            let mut r: Vec<(&'static str, &'static str, &'static str)> = Vec::new();
            r.push(("-i", "Interval (seconds)", " -i 1.0"));
            r.push(("-m", "Max Hops", " -m 30"));
            r.push(("-c", "Cycles", " -c 10"));
            proof {
                assert(r@[0].0@ =~= seq!['-', 'i']);
                assert(r@[1].0@ =~= seq!['-', 'm']);
                assert(r@[2].0@ =~= seq!['-', 'c']);
            }
            r
        },
        CurrentScreen::Nmap => {
            let mut r: Vec<(&'static str, &'static str, &'static str)> = Vec::new();
            r.push(("-p", "Ports (e.g. 80,443)", " -p 80,443"));
            r.push(("-F", "Fast Scan", " -F"));
            r.push(("-sV", "Service Version", " -sV"));
            r.push(("-Pn", "No Ping", " -Pn"));
            r.push(("-O", "OS Detection", " -O"));
            r
        },
        CurrentScreen::ArpScan => {
            let mut r: Vec<(&'static str, &'static str, &'static str)> = Vec::new();
            r.push(("-l", "Localnet", " -l"));
            r.push(("-I <iface>", "Interface", " -I en0"));
            r.push(("-q", "Quiet", " -q"));
            r.push(("-r", "Retry", " -r 3"));
            r
        },
        _ => Vec::new(),
    }
}

} // verus!
