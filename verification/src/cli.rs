//! Command-line handling of the one-shot renderer and the daemon.

use vstd::prelude::*;

use crate::text::str_eq;

verus! {

/// The renderer's arguments.
#[derive(Debug, Clone)]
pub struct Args {
    /// Path of the TOML configuration.
    pub config: String,
    /// Where to write the PNG preview, when given.
    pub output: Option<String>,
    /// Arguments that were not understood, in order (each is warned about).
    pub ignored: Vec<String>,
}

/// The views of a list of strings.
pub open spec fn views(v: Seq<String>) -> Seq<Seq<char>> {
    v.map_values(|s: String| s@)
}

pub open spec fn is_config_flag(a: Seq<char>) -> bool {
    a == "--config"@ || a == "-c"@
}

pub open spec fn is_output_flag(a: Seq<char>) -> bool {
    a == "--output"@ || a == "-o"@
}

/// The arguments `args` read after the state `(config, output, ignored)`:
/// `--config`/`-c` takes the next argument as the configuration path (a
/// trailing flag changes nothing), `--output`/`-o` takes the next argument as
/// the PNG path (a trailing flag clears it), anything else is ignored.
pub open spec fn read_args(
    args: Seq<Seq<char>>,
    config: Seq<char>,
    output: Option<Seq<char>>,
    ignored: Seq<Seq<char>>,
) -> (Seq<char>, Option<Seq<char>>, Seq<Seq<char>>)
    decreases args.len(),
{
    if args.len() == 0 {
        (config, output, ignored)
    } else if is_config_flag(args[0]) {
        if args.len() >= 2 {
            read_args(args.skip(2), args[1], output, ignored)
        } else {
            (config, output, ignored)
        }
    } else if is_output_flag(args[0]) {
        if args.len() >= 2 {
            read_args(args.skip(2), config, Some(args[1]), ignored)
        } else {
            (config, None, ignored)
        }
    } else {
        read_args(args.skip(1), config, output, ignored.push(args[0]))
    }
}

/// Reads the renderer's arguments (without the program name); the
/// configuration defaults to `config.toml`.
pub fn parse_args(args: &Vec<String>) -> (r: Args)
    ensures
        (r.config@, match r.output {
            Some(o) => Some(o@),
            None => None,
        }, views(r.ignored@)) == read_args(views(args@), "config.toml"@, None, seq![]),
{
    let mut config = "config.toml".to_owned();
    let mut output: Option<String> = None;
    let mut ignored: Vec<String> = Vec::new();
    let n = args.len();
    let mut i: usize = 0;
    assert(views(args@).skip(0) =~= views(args@));
    assert(views(ignored@) =~= Seq::<Seq<char>>::empty());
    while i < n
        invariant
            n == args@.len(),
            i <= n,
            read_args(views(args@).skip(i as int), config@, match output {
                Some(o) => Some(o@),
                None => None,
            }, views(ignored@)) == read_args(views(args@), "config.toml"@, None, seq![]),
        decreases n - i,
    {
        let ghost rest = views(args@).skip(i as int);
        assert(rest[0] == args@[i as int]@);
        let arg = args[i].as_str();
        if str_eq(arg, "--config") || str_eq(arg, "-c") {
            if i + 1 < n {
                assert(rest[1] == args@[i + 1]@);
                assert(rest.skip(2) =~= views(args@).skip(i + 2));
                config = args[i + 1].clone();
                i = i + 2;
            } else {
                assert(views(args@).skip(n as int) =~= Seq::<Seq<char>>::empty());
                i = n;
            }
        } else if str_eq(arg, "--output") || str_eq(arg, "-o") {
            if i + 1 < n {
                assert(rest[1] == args@[i + 1]@);
                assert(rest.skip(2) =~= views(args@).skip(i + 2));
                output = Some(args[i + 1].clone());
                i = i + 2;
            } else {
                assert(views(args@).skip(n as int) =~= Seq::<Seq<char>>::empty());
                output = None;
                i = n;
            }
        } else {
            assert(rest.skip(1) =~= views(args@).skip(i + 1));
            let ghost before = views(ignored@);
            ignored.push(args[i].clone());
            assert(views(ignored@) =~= before.push(args@[i as int]@));
            i = i + 1;
        }
    }
    assert(views(args@).skip(n as int) =~= Seq::<Seq<char>>::empty());
    Args { config, output, ignored }
}

/// PNG destination when none is given. On a host, `forecast.png`, so a bare
/// run still produces something to look at; on the device the panel is the
/// output, and no PNG is written unless asked for.
pub fn default_output(on_panel: bool) -> (r: Option<String>)
    ensures
        on_panel ==> r is None,
        !on_panel ==> (r matches Some(p) && p@ == "forecast.png"@),
{
    if on_panel {
        None
    } else {
        Some("forecast.png".to_owned())
    }
}

/// PNG destination: explicit `--output` always wins, else the default for
/// where the program runs.
pub fn output_path(args: &Args, on_panel: bool) -> (r: Option<String>)
    ensures
        match args.output {
            Some(o) => r matches Some(p) && p@ == o@,
            None => if on_panel {
                r is None
            } else {
                r matches Some(p) && p@ == "forecast.png"@
            },
        },
{
    match &args.output {
        Some(o) => Some(o.clone()),
        None => default_output(on_panel),
    }
}

/// The daemon's configuration path: the argument after the first
/// `--config`/`-c` that has one, else `config.toml`.
pub open spec fn config_path_of(args: Seq<Seq<char>>) -> Seq<char>
    decreases args.len(),
{
    if args.len() == 0 {
        "config.toml"@
    } else if is_config_flag(args[0]) && args.len() >= 2 {
        args[1]
    } else if is_config_flag(args[0]) {
        "config.toml"@
    } else {
        config_path_of(args.skip(1))
    }
}

/// The daemon's configuration path from its arguments (without the program
/// name).
pub fn parse_config_path(args: &Vec<String>) -> (r: String)
    ensures
        r@ == config_path_of(views(args@)),
{
    let n = args.len();
    let mut i: usize = 0;
    assert(views(args@).skip(0) =~= views(args@));
    while i < n
        invariant
            n == args@.len(),
            i <= n,
            config_path_of(views(args@).skip(i as int)) == config_path_of(views(args@)),
        decreases n - i,
    {
        let ghost rest = views(args@).skip(i as int);
        assert(rest[0] == args@[i as int]@);
        let arg = args[i].as_str();
        if str_eq(arg, "--config") || str_eq(arg, "-c") {
            if i + 1 < n {
                assert(rest[1] == args@[i + 1]@);
                return args[i + 1].clone();
            }
            return "config.toml".to_owned();
        }
        assert(rest.skip(1) =~= views(args@).skip(i + 1));
        i = i + 1;
    }
    assert(views(args@).skip(n as int) =~= Seq::<Seq<char>>::empty());
    "config.toml".to_owned()
}

} // verus!
