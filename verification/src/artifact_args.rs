//! The command line of the artifact renderer.

use vstd::prelude::*;

use crate::dataset::shown;
use crate::lens::intent;
use crate::text::{cat, same, views};

verus! {

/// What `--help` prints.
pub const HELP: &'static str = "\
muas-artifacts — NDF artifact lenses over one mission dataset

USAGE:
    muas-artifacts --from-journal <DIR> [--out <DIR>] [--audit]
    muas-artifacts --bootstrap <FILE>   [--out <DIR>] [--audit]
    muas-artifacts --runs <DIR> --runs <DIR> [...] [--out <DIR>] [--audit]

SOURCES (exactly one form):
    --bootstrap <FILE>     live mode: JSON with engine links, chain addresses
                           (root/writer/writer key), and this reader's identity.
                           Mission data is fetched by name over NDN — no files.
    --from-journal <DIR>   offline mode: agent journals + dashboard recordings
                           (*.jsonl) republished through the identical Block
                           publish path — same hashing, different transport.
    --runs <DIR>           repeatable (>= 2): one journal dir per run; renders
                           the inter-run comparison (compare.html).

OUTPUT:
    --out <DIR>            output directory (default ./artifacts)
    --audit                print the provenance audit JSON (artifact ->
                           citations -> re-fetch + re-hash verification) and
                           exit non-zero if any hash fails to verify

Single-run sources render report.html + deck.html + demo.html;
--runs renders compare.html.
";

/// What the renderer is asked to do.
#[derive(Debug)]
pub struct Args {
    /// File of the live resolver's bootstrap.
    pub bootstrap: Option<String>,
    /// Directory of one run's journals.
    pub from_journal: Option<String>,
    /// Directories of the runs to compare.
    pub runs: Vec<String>,
    /// Output directory.
    pub out: String,
    /// Whether to print the provenance audit.
    pub audit: bool,
}

/// What the renderer is asked to do, by its values.
#[verifier::ext_equal]
pub struct ArgsView {
    pub bootstrap: Option<Seq<char>>,
    pub from_journal: Option<Seq<char>>,
    pub runs: Seq<Seq<char>>,
    pub out: Seq<char>,
    pub audit: bool,
}


impl View for Args {
    type V = ArgsView;

    open spec fn view(&self) -> ArgsView {
        ArgsView {
            bootstrap: shown(self.bootstrap),
            from_journal: shown(self.from_journal),
            runs: views(self.runs@),
            out: self.out@,
            audit: self.audit,
        }
    }
}

/// What the flags come to.
pub enum Scan {
    Help,
    Args(ArgsView),
    Refused(Seq<char>),
}

/// The arguments before the first flag.
pub open spec fn no_flags() -> ArgsView {
    ArgsView {
        bootstrap: None,
        from_journal: None,
        runs: Seq::empty(),
        out: "./artifacts"@,
        audit: false,
    }
}

/// Whether a flag takes a value.
pub open spec fn takes_value(flag: Seq<char>) -> bool {
    flag == "--bootstrap"@ || flag == "--from-journal"@ || flag == "--runs"@ || flag == "--out"@
}

/// The arguments with a flag's value.
pub open spec fn with_value(a: ArgsView, flag: Seq<char>, value: Seq<char>) -> ArgsView {
    if flag == "--bootstrap"@ {
        ArgsView { bootstrap: Some(value), ..a }
    } else if flag == "--from-journal"@ {
        ArgsView { from_journal: Some(value), ..a }
    } else if flag == "--runs"@ {
        ArgsView { runs: a.runs.push(value), ..a }
    } else {
        ArgsView { out: value, ..a }
    }
}

/// What the flags from `i` on come to.
pub open spec fn scan(a: ArgsView, argv: Seq<Seq<char>>, i: nat) -> Scan
    decreases argv.len() - i,
{
    if i >= argv.len() {
        Scan::Args(a)
    } else {
        let flag = argv[i as int];
        if flag == "--help"@ || flag == "-h"@ {
            Scan::Help
        } else if takes_value(flag) {
            if i + 1 < argv.len() {
                scan(with_value(a, flag, argv[(i + 1) as int]), argv, i + 2)
            } else {
                Scan::Refused(flag + ": missing value"@)
            }
        } else if flag == "--audit"@ {
            scan(ArgsView { audit: true, ..a }, argv, i + 1)
        } else {
            Scan::Refused("unknown flag '"@ + flag + "' (see --help)"@)
        }
    }
}

/// Number of sources that are named.
pub open spec fn sources(a: ArgsView) -> int {
    (if a.bootstrap is Some {
        1int
    } else {
        0
    }) + (if a.from_journal is Some {
        1int
    } else {
        0
    }) + (if a.runs.len() > 0 {
        1int
    } else {
        0
    })
}

/// What is said unless exactly one source is named.
pub const ONE_SOURCE: &'static str =
    "exactly one of --bootstrap, --from-journal, --runs required (see --help)";

/// What is said of a single run to compare.
pub const TWO_RUNS: &'static str =
    "--runs needs at least two run directories (one run? use --from-journal)";

/// What an argument list comes to: exactly one source, and two runs or more
/// where runs are compared.
pub open spec fn parsed(argv: Seq<Seq<char>>) -> Scan {
    match scan(no_flags(), argv, 0) {
        Scan::Args(a) => if sources(a) != 1 {
            Scan::Refused(ONE_SOURCE@)
        } else if a.runs.len() == 1 {
            Scan::Refused(TWO_RUNS@)
        } else {
            Scan::Args(a)
        },
        s => s,
    }
}

/// Parse the arguments; `None` asks for help.
pub fn parse_args(argv: &Vec<String>) -> (r: Result<Option<Args>, String>)
    ensures
        match r {
            Ok(Some(a)) => parsed(views(argv@)) == Scan::Args(a@),
            Ok(None) => parsed(views(argv@)) == Scan::Help,
            Err(e) => parsed(views(argv@)) == Scan::Refused(e@),
        },
{
    let ghost av = views(argv@);
    let mut args = Args {
        bootstrap: None,
        from_journal: None,
        runs: Vec::new(),
        out: "./artifacts".to_owned(),
        audit: false,
    };
    assert(args@ =~= no_flags());
    let mut i: usize = 0;
    while i < argv.len()
        invariant
            i <= argv@.len(),
            av == views(argv@),
            scan(no_flags(), av, 0) == scan(args@, av, i as nat),
        decreases argv@.len() - i,
    {
        let flag = argv[i].as_str();
        assert(av[i as int] == flag@);
        let ghost before = args@;
        proof {
            reveal_strlit("--bootstrap");
            reveal_strlit("--from-journal");
            reveal_strlit("--runs");
            reveal_strlit("--out");
            reveal_strlit("--help");
            reveal_strlit("-h");
            reveal_strlit("--audit");
            assert("--runs"@[2] == 'r');
            assert("--help"@[2] == 'h');
            assert("--audit"@.len() == 7);
        }
        if same(flag, "--help") || same(flag, "-h") {
            return Ok(None);
        }
        if same(flag, "--bootstrap") || same(flag, "--from-journal") || same(flag, "--runs")
            || same(flag, "--out") {
            if i + 1 >= argv.len() {
                return Err(cat(flag, ": missing value"));
            }
            let value = argv[i + 1].clone();
            assert(av[i + 1] == value@);
            if same(flag, "--bootstrap") {
                args.bootstrap = Some(value);
            } else if same(flag, "--from-journal") {
                args.from_journal = Some(value);
            } else if same(flag, "--runs") {
                let ghost runs = args.runs@;
                args.runs.push(value);
                assert(views(args.runs@) =~= views(runs).push(value@));
            } else {
                args.out = value;
            }
            assert(args@ =~= with_value(before, flag@, value@));
            i = i + 2;
        } else if same(flag, "--audit") {
            args.audit = true;
            assert(args@ =~= (ArgsView { audit: true, ..before }));
            i = i + 1;
        } else {
            let mut e = cat("unknown flag '", flag);
            e.append("' (see --help)");
            return Err(e);
        }
    }
    assert(args@.runs.len() == args.runs@.len());
    let n: usize = (if args.bootstrap.is_some() {
        1usize
    } else {
        0
    }) + (if args.from_journal.is_some() {
        1usize
    } else {
        0
    }) + (if args.runs.len() > 0 {
        1usize
    } else {
        0
    });
    if n != 1 {
        return Err(ONE_SOURCE.to_owned());
    }
    if args.runs.len() == 1 {
        return Err(TWO_RUNS.to_owned());
    }
    Ok(Some(args))
}

/// The lenses that a source is rendered through: one run through three, a set
/// of runs through the comparison.
pub fn intents_of(args: &Args) -> (r: Vec<&'static str>)
    ensures
        args@.runs.len() == 0 ==> r@.len() == 3 && r@[0]@ == intent::REPORT@ && r@[1]@
            == intent::DECK@ && r@[2]@ == intent::DEMO@,
        args@.runs.len() > 0 ==> r@.len() == 1 && r@[0]@ == intent::COMPARE@,
{
    let mut v: Vec<&'static str> = Vec::new();
    if args.runs.len() == 0 {
        v.push(intent::REPORT);
        v.push(intent::DECK);
        v.push(intent::DEMO);
    } else {
        v.push(intent::COMPARE);
    }
    v
}

/// Arguments that are accepted name exactly one source, and never a single run
/// to compare.
pub proof fn accepted_arguments_name_one_source(argv: Seq<Seq<char>>, a: ArgsView)
    requires
        parsed(argv) == Scan::Args(a),
    ensures
        sources(a) == 1,
        a.runs.len() != 1,
{
}

} // verus!
