//! The command line of the flashing tool, and what it says of a port and of its
//! progress.

use vstd::prelude::*;
use vstd::string::StringExecFns;
use crate::device::serial::PortInfo;
use crate::text::{chars_of, contains, has_text, same_str};

verus! {

/// What the arguments ask for.
#[derive(Debug, PartialEq)]
pub enum Request {
    Help,
    /// List the serial ports.
    List,
    /// Flash an image, over a serial port where one is named.
    Flash { bin: String, port: Option<String> },
    /// The port option has no value.
    NoPortValue,
    Unexpected(String),
    /// No image is named.
    NoImage,
}

/// What the arguments ask for, as plain values.
pub enum RequestView {
    Help,
    List,
    Flash { bin: Seq<char>, port: Option<Seq<char>> },
    NoPortValue,
    Unexpected(Seq<char>),
    NoImage,
}

/// An optional text as a plain value.
pub open spec fn text_view(s: Option<String>) -> Option<Seq<char>> {
    match s {
        Some(s) => Some(s@),
        None => None,
    }
}

impl View for Request {
    type V = RequestView;

    open spec fn view(&self) -> RequestView {
        match *self {
            Request::Help => RequestView::Help,
            Request::List => RequestView::List,
            Request::Flash { bin, port } => RequestView::Flash { bin: bin@, port: text_view(port) },
            Request::NoPortValue => RequestView::NoPortValue,
            Request::Unexpected(s) => RequestView::Unexpected(s@),
            Request::NoImage => RequestView::NoImage,
        }
    }
}

/// The arguments as plain values.
pub open spec fn arg_views(v: Seq<String>) -> Seq<Seq<char>> {
    v.map_values(|s: String| s@)
}

/// The options so far.
pub struct Opts {
    pub bin: Option<Seq<char>>,
    pub port: Option<Seq<char>>,
    pub list: bool,
}

/// An argument is an option.
pub open spec fn dashed(s: Seq<char>) -> bool {
    s.len() > 0 && s[0] == '-'
}

/// What the arguments from `i` on ask for, after the options so far. The first help
/// option and the first mistake end the reading.
pub open spec fn asked(args: Seq<Seq<char>>, i: int, o: Opts) -> RequestView
    decreases args.len() - i,
{
    if i < 0 || i >= args.len() {
        if o.list {
            RequestView::List
        } else {
            match o.bin {
                Some(bin) => RequestView::Flash { bin, port: o.port },
                None => RequestView::NoImage,
            }
        }
    } else if args[i] == "-p"@ || args[i] == "--port"@ {
        if i + 1 < args.len() {
            asked(args, i + 2, Opts { port: Some(args[i + 1]), ..o })
        } else {
            RequestView::NoPortValue
        }
    } else if args[i] == "-l"@ || args[i] == "--list"@ {
        asked(args, i + 1, Opts { list: true, ..o })
    } else if args[i] == "-h"@ || args[i] == "--help"@ {
        RequestView::Help
    } else if !dashed(args[i]) && o.bin is None {
        asked(args, i + 1, Opts { bin: Some(args[i]), ..o })
    } else {
        RequestView::Unexpected(args[i])
    }
}

fn is_dashed(s: &str) -> (r: bool)
    ensures
        r == dashed(s@),
{
    let c = chars_of(s);
    c.len() > 0 && c[0] == '-'
}

/// Reads the arguments behind the name of the program.
pub fn read_args(args: &Vec<String>) -> (r: Request)
    ensures
        r@ == asked(arg_views(args@), 0, (Opts { bin: None, port: None, list: false })),
{
    let ghost all = arg_views(args@);
    let n: usize = args.len();
    let mut bin: Option<String> = None;
    let mut port: Option<String> = None;
    let mut list = false;
    let mut i: usize = 0;
    while i < n
        invariant
            i <= n,
            n == args@.len(),
            all == arg_views(args@),
            asked(all, 0, (Opts { bin: None, port: None, list: false })) == asked(
                all,
                i as int,
                (Opts { bin: text_view(bin), port: text_view(port), list }),
            ),
        decreases n - i,
    {
        assert(all[i as int] == args@[i as int]@);
        let a = args[i].as_str();
        if same_str(a, "-p") || same_str(a, "--port") {
            if n - i < 2 {
                return Request::NoPortValue;
            }
            assert(all[i + 1] == args@[i + 1]@);
            port = Some(String::from_str(args[i + 1].as_str()));
            i += 2;
        } else if same_str(a, "-l") || same_str(a, "--list") {
            list = true;
            i += 1;
        } else if same_str(a, "-h") || same_str(a, "--help") {
            return Request::Help;
        } else if !is_dashed(a) && bin.is_none() {
            bin = Some(String::from_str(a));
            i += 1;
        } else {
            return Request::Unexpected(String::from_str(a));
        }
    }
    if list {
        return Request::List;
    }
    match bin {
        Some(bin) => Request::Flash { bin, port },
        None => Request::NoImage,
    }
}

/// A request for help is granted whatever stands behind it, and nothing is flashed.
pub proof fn help_comes_first(args: Seq<Seq<char>>, o: Opts)
    requires
        args.len() > 0,
        args[0] == "-h"@ || args[0] == "--help"@,
    ensures
        asked(args, 0, o) is Help,
{
    reveal_strlit("-h");
    reveal_strlit("--help");
    reveal_strlit("-p");
    reveal_strlit("--port");
    reveal_strlit("-l");
    reveal_strlit("--list");
    assert("-h"@[1] == 'h' && "-p"@[1] == 'p' && "-l"@[1] == 'l');
    assert("--help"@[2] == 'h' && "--port"@[2] == 'p' && "--list"@[2] == 'l');
    assert("--help"@.len() != "-p"@.len() && "-h"@.len() != "--port"@.len());
}

/// The line of a port.
pub open spec fn port_text(p: PortInfo) -> Seq<char> {
    p.device@ + "  "@ + p.manufacturer@ + " "@ + p.product@ + if p.is_dash {
        " [Pith DDU]"@
    } else if p.is_esp {
        " [ESP]"@
    } else {
        ""@
    }
}

/// The line of a port.
pub fn port_line(p: &PortInfo) -> (s: String)
    ensures
        s@ == port_text(*p),
{
    let mut s = String::from_str(p.device.as_str());
    s.append("  ");
    s.append(p.manufacturer.as_str());
    s.append(" ");
    s.append(p.product.as_str());
    if p.is_dash {
        s.append(" [Pith DDU]");
    } else if p.is_esp {
        s.append(" [ESP]");
    } else {
        s.append("");
    }
    s
}

/// Whether an answer to the capability request is one of a unit.
pub fn answers(caps: &str) -> (r: bool)
    ensures
        r == has_text(caps@, "name"@),
{
    let c = chars_of(caps);
    contains(c.as_slice(), "name")
}

/// The progress that was shown last.
#[derive(Clone, Copy, Debug, PartialEq, Eq, Structural)]
pub struct Progress {
    pub last: i32,
}

impl Progress {
    /// Nothing has been shown.
    pub fn new() -> (r: Progress)
        ensures
            r.last == -1,
    {
        Progress { last: -1 }
    }

    /// Whether a progress is to be shown, which it is where it changed.
    pub fn moved(&mut self, pct: i32) -> (r: bool)
        ensures
            r == (pct != old(self).last),
            *final(self) == (Progress { last: pct }),
    {
        let r = pct != self.last;
        self.last = pct;
        r
    }
}

/// No options yet.
pub open spec fn no_opts() -> Opts {
    Opts { bin: None, port: None, list: false }
}

/// The one argument that is no option is the image, and the port is what stands behind
/// its option, in either order; without the option there is none.
pub proof fn images_and_ports_are_read(bin: Seq<char>, port: Seq<char>, flag: Seq<char>)
    requires
        !dashed(bin),
        flag == "-p"@ || flag == "--port"@,
    ensures
        asked(seq![bin], 0, no_opts()) == (RequestView::Flash { bin, port: None }),
        asked(seq![bin, flag, port], 0, no_opts()) == (RequestView::Flash {
            bin,
            port: Some(port),
        }),
        asked(seq![flag, port, bin], 0, no_opts()) == (RequestView::Flash {
            bin,
            port: Some(port),
        }),
        asked(seq![flag, port], 0, no_opts()) is NoImage,
        asked(seq![flag], 0, no_opts()) is NoPortValue,
        asked(seq![bin, flag], 0, no_opts()) is NoPortValue,
        asked(Seq::empty(), 0, no_opts()) is NoImage,
{
    reveal_strlit("-p");
    reveal_strlit("--port");
    reveal_strlit("-l");
    reveal_strlit("--list");
    reveal_strlit("-h");
    reveal_strlit("--help");
    assert("-p"@[0] == '-' && "--port"@[0] == '-');
    assert("-l"@[0] == '-' && "--list"@[0] == '-' && "-h"@[0] == '-' && "--help"@[0] == '-');
    let found = Opts { bin: Some(bin), ..no_opts() };
    let named = Opts { port: Some(port), ..no_opts() };
    let both = Opts { bin: Some(bin), port: Some(port), list: false };
    assert(asked(seq![bin], 1, found) == (RequestView::Flash { bin, port: None }));
    let a = seq![bin, flag, port];
    assert(asked(a, 3, both) == (RequestView::Flash { bin, port: Some(port) }));
    assert(asked(a, 1, found) == asked(a, 3, both));
    let b = seq![flag, port, bin];
    assert(asked(b, 3, both) == (RequestView::Flash { bin, port: Some(port) }));
    assert(asked(b, 2, named) == asked(b, 3, both));
    assert(asked(seq![flag, port], 2, named) is NoImage);
    assert(asked(seq![bin, flag], 1, found) is NoPortValue);
}

/// A request for the list is granted, with an image or without; a second image and an
/// unknown option are not understood, and it is said which argument was not.
pub proof fn lists_and_mistakes_are_read(
    bin: Seq<char>,
    more: Seq<char>,
    flag: Seq<char>,
    unknown: Seq<char>,
)
    requires
        !dashed(bin),
        !dashed(more),
        flag == "-l"@ || flag == "--list"@,
        dashed(unknown),
        unknown != "-p"@ && unknown != "--port"@ && unknown != "-l"@ && unknown != "--list"@
            && unknown != "-h"@ && unknown != "--help"@,
    ensures
        asked(seq![flag], 0, no_opts()) is List,
        asked(seq![bin, flag], 0, no_opts()) is List,
        asked(seq![bin, more], 0, no_opts()) == RequestView::Unexpected(more),
        asked(seq![bin, unknown], 0, no_opts()) == RequestView::Unexpected(unknown),
        asked(seq![unknown, bin], 0, no_opts()) == RequestView::Unexpected(unknown),
{
    reveal_strlit("-p");
    reveal_strlit("--port");
    reveal_strlit("-l");
    reveal_strlit("--list");
    reveal_strlit("-h");
    reveal_strlit("--help");
    assert("-p"@[0] == '-' && "--port"@[0] == '-');
    assert("-l"@[0] == '-' && "--list"@[0] == '-' && "-h"@[0] == '-' && "--help"@[0] == '-');
    assert("-p"@[1] == 'p' && "-l"@[1] == 'l' && "-h"@[1] == 'h');
    assert("--port"@[1] == '-' && "--list"@[1] == '-' && "--help"@[1] == '-');
    assert("--port"@[2] == 'p' && "--list"@[2] == 'l' && "--help"@[2] == 'h');
    let found = Opts { bin: Some(bin), ..no_opts() };
    assert(asked(seq![flag], 1, (Opts { list: true, ..no_opts() })) is List);
    assert(asked(seq![bin, flag], 2, (Opts { list: true, ..found })) is List);
    assert(asked(seq![bin, flag], 1, found) is List);
    assert(asked(seq![bin, more], 1, found) == RequestView::Unexpected(more));
    assert(asked(seq![bin, unknown], 1, found) == RequestView::Unexpected(unknown));
}

/// The line of a port starts with its device, then says who made it and what it is; a
/// display unit is marked as one, and another chip of that kind as such.
pub proof fn ports_are_marked(p: PortInfo)
    ensures
        ({
            let head = p.device@ + "  "@ + p.manufacturer@ + " "@ + p.product@;
            &&& p.is_dash ==> port_text(p) == head + " [Pith DDU]"@
            &&& !p.is_dash && p.is_esp ==> port_text(p) == head + " [ESP]"@
            &&& !p.is_dash && !p.is_esp ==> port_text(p) == head
        }),
{
    reveal_strlit("");
    let head = p.device@ + "  "@ + p.manufacturer@ + " "@ + p.product@;
    assert(head + ""@ =~= head);
}

} // verus!
