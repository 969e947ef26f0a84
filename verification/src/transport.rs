//! How the server is reached: the choice between stdio and streamable HTTP,
//! made from the command line and the environment, and the HTTP bind
//! address.
use crate::text::{chars_eq_str, chars_of};
use vstd::prelude::*;

verus! {

/// Address the HTTP transport binds when none is configured.
pub const DEFAULT_HTTP_BIND: &'static str = "127.0.0.1:8000";

/// Path under which the HTTP transport serves MCP.
pub const MOUNT_PATH: &'static str = "/mcp";

/// The texts of a list of strings.
pub open spec fn arg_views(args: Seq<String>) -> Seq<Seq<char>> {
    args.map_values(|a: String| a@)
}

/// Whether command-line arguments ask for HTTP: `--transport=http`, or
/// `--transport` followed by `http`. The value after `--transport` is
/// consumed whatever it is.
pub open spec fn args_ask_http(args: Seq<Seq<char>>) -> bool
    decreases args.len(),
{
    if args.len() == 0 {
        false
    } else if args[0] == "--transport=http"@ {
        true
    } else if args[0] == "--transport"@ {
        if args.len() < 2 {
            false
        } else if args[1] == "http"@ {
            true
        } else {
            args_ask_http(args.skip(2))
        }
    } else {
        args_ask_http(args.skip(1))
    }
}

/// Whether a command line, the program's name first, asks for HTTP.
pub open spec fn cli_asks_http(cmd: Seq<Seq<char>>) -> bool {
    cmd.len() > 0 && args_ask_http(cmd.skip(1))
}

/// Whether to serve over HTTP. `args` is the whole command line, the
/// program's name first; `env_transport` is the value of the transport
/// variable, when set. The arguments are looked at first; failing them, the
/// variable must be exactly `http`.
pub fn use_http_transport(args: &Vec<String>, env_transport: Option<&str>) -> (b: bool)
    ensures
        b == (cli_asks_http(arg_views(args@)) || match env_transport {
            Some(v) => v@ == "http"@,
            None => false,
        }),
{
    let ghost s = arg_views(args@);
    let n = args.len();
    let mut asked = false;
    if n == 0 {
        return match env_transport {
            Some(v) => chars_eq_str(&chars_of(v), "http"),
            None => false,
        };
    }
    let mut i: usize = 1;
    while i < n
        invariant_except_break
            n == args@.len(),
            s == arg_views(args@),
            s.len() == n,
            1 <= i <= n,
            args_ask_http(s.skip(1)) == args_ask_http(s.skip(i as int)),
            !asked,
        ensures
            asked ==> args_ask_http(s.skip(1)),
            !asked ==> !args_ask_http(s.skip(1)),
        decreases n - i,
    {
        let ghost rest = s.skip(i as int);
        assert(rest[0] == args@[i as int]@);
        let a = chars_of(args[i].as_str());
        if chars_eq_str(&a, "--transport=http") {
            asked = true;
            break;
        }
        if chars_eq_str(&a, "--transport") {
            if i + 1 >= n {
                assert(rest.len() < 2);
                break;
            }
            assert(rest[1] == args@[i + 1]@);
            let v = chars_of(args[i + 1].as_str());
            if chars_eq_str(&v, "http") {
                asked = true;
                break;
            }
            assert(rest.skip(2) =~= s.skip(i + 2));
            i = i + 2;
        } else {
            assert(rest.skip(1) =~= s.skip(i + 1));
            i = i + 1;
        }
    }
    if asked {
        return true;
    }
    match env_transport {
        Some(v) => chars_eq_str(&chars_of(v), "http"),
        None => false,
    }
}

/// The address to bind: the configured one, or the default.
pub fn http_bind(configured: Option<String>) -> (b: String)
    ensures
        b@ == match configured {
            Some(c) => c@,
            None => DEFAULT_HTTP_BIND@,
        },
{
    match configured {
        Some(c) => c,
        None => String::from_str(DEFAULT_HTTP_BIND),
    }
}

} // verus!
