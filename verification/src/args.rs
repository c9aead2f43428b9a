//! The supervisor's command line:
//! `--ctl FIFO [--config player.toml] -- PLAYER ARGS…`.

use vstd::prelude::*;

verus! {

/// Where the parts of a well-formed command line stand, as indices into the
/// arguments that follow the program name.
#[derive(Clone, Copy, Debug, PartialEq, Eq)]
pub struct ArgLayout {
    /// The control FIFO's path.
    pub ctl: usize,
    /// The configuration file's path; `None` for the default one.
    pub config: Option<usize>,
    /// The player command starts here and runs to the end.
    pub player: usize,
}

/// Why a command line was refused.
#[derive(Clone, Copy, Debug, PartialEq, Eq)]
pub enum ArgError {
    /// `--config` is the last argument.
    ConfigNeedsPath,
    /// Nothing follows `--`.
    NoPlayer,
    /// `--` came before any `--ctl` path.
    CtlRequired,
    /// The argument at this index is not an option.
    Unexpected(usize),
    /// The arguments ran out before `--`.
    Usage,
}

/// Whether argument `a` (`None`: not valid Unicode) is the text `lit`.
pub open spec fn arg_is(a: Option<String>, lit: Seq<char>) -> bool {
    a matches Some(s) && s@ == lit
}

/// The result of scanning `args` from index `i`, with the `--ctl` and
/// `--config` paths found so far.
pub open spec fn scan(args: Seq<Option<String>>, i: int, ctl: Option<usize>, config: Option<usize>) -> Result<ArgLayout, ArgError>
    decreases args.len() + 1 - i,
{
    if i < 0 || i >= args.len() {
        Err(ArgError::Usage)
    } else if arg_is(args[i], "--ctl"@) {
        let next = if i + 1 < args.len() { Some(#[verifier::truncate] ((i + 1) as usize)) } else { None };
        scan(args, i + 2, next, config)
    } else if arg_is(args[i], "--config"@) {
        if i + 1 < args.len() {
            scan(args, i + 2, ctl, Some(#[verifier::truncate] ((i + 1) as usize)))
        } else {
            Err(ArgError::ConfigNeedsPath)
        }
    } else if arg_is(args[i], "--"@) {
        if i + 1 >= args.len() {
            Err(ArgError::NoPlayer)
        } else if ctl is None {
            Err(ArgError::CtlRequired)
        } else {
            Ok(ArgLayout { ctl: ctl->0, config, player: #[verifier::truncate] ((i + 1) as usize) })
        }
    } else {
        Err(ArgError::Unexpected(#[verifier::truncate] (i as usize)))
    }
}

/// The meaning of the command line `args` (the arguments after the program
/// name).
pub open spec fn parsed(args: Seq<Option<String>>) -> Result<ArgLayout, ArgError> {
    scan(args, 0, None, None)
}

/// Whether `s` is the text `lit`.
pub fn text_is(s: &str, lit: &str) -> (r: bool)
    ensures
        r == (s@ == lit@),
{
    let n = s.unicode_len();
    if n != lit.unicode_len() {
        return false;
    }
    let mut i: usize = 0;
    while i < n
        invariant
            n == s@.len(),
            n == lit@.len(),
            i <= n,
            forall|j: int| 0 <= j < i ==> s@[j] == lit@[j],
        decreases n - i,
    {
        if s.get_char(i) != lit.get_char(i) {
            return false;
        }
        i = i + 1;
    }
    assert(s@ =~= lit@);
    true
}

fn arg_matches(a: &Option<String>, lit: &str) -> (r: bool)
    ensures
        r == arg_is(*a, lit@),
{
    match a {
        Some(s) => text_is(s.as_str(), lit),
        None => false,
    }
}

/// Parses the command line `args` (the arguments after the program name;
/// `None` for one that is not valid Unicode).
pub fn parse_args(args: &Vec<Option<String>>) -> (r: Result<ArgLayout, ArgError>)
    ensures
        r == parsed(args@),
{
    let n = args.len();
    let mut i: usize = 0;
    let mut ctl: Option<usize> = None;
    let mut config: Option<usize> = None;
    while i < n
        invariant
            n == args@.len(),
            scan(args@, i as int, ctl, config) == parsed(args@),
        decreases n - i,
    {
        if arg_matches(&args[i], "--ctl") {
            if i + 1 < n {
                ctl = Some(i + 1);
                i = i + 2;
            } else {
                assert(scan(args@, i + 2, None, config) == Err::<ArgLayout, ArgError>(ArgError::Usage));
                return Err(ArgError::Usage);
            }
        } else if arg_matches(&args[i], "--config") {
            if i + 1 < n {
                config = Some(i + 1);
                i = i + 2;
            } else {
                return Err(ArgError::ConfigNeedsPath);
            }
        } else if arg_matches(&args[i], "--") {
            if i + 1 >= n {
                return Err(ArgError::NoPlayer);
            }
            return match ctl {
                None => Err(ArgError::CtlRequired),
                Some(c) => Ok(ArgLayout { ctl: c, config, player: i + 1 }),
            };
        } else {
            return Err(ArgError::Unexpected(i));
        }
    }
    Err(ArgError::Usage)
}

/// The index after the last option `lit` among the option pairs in
/// `args[i..k]`, or `acc` if there is none.
pub open spec fn last_value(args: Seq<Option<String>>, i: int, k: int, lit: Seq<char>, acc: Option<usize>) -> Option<usize>
    decreases k + 1 - i,
{
    if i >= k {
        acc
    } else {
        last_value(
            args,
            i + 2,
            k,
            lit,
            if arg_is(args[i], lit) { Some(#[verifier::truncate] ((i + 1) as usize)) } else { acc },
        )
    }
}

/// Whether `args[i..k]` is a run of `--ctl PATH` and `--config PATH` pairs,
/// in any order.
pub open spec fn option_pairs(args: Seq<Option<String>>, i: int, k: int) -> bool {
    &&& 0 <= i <= k
    &&& (k - i) % 2 == 0
    &&& forall|j: int|
        i <= j < k && (j - i) % 2 == 0 ==> #[trigger] arg_is(args[j], "--ctl"@) || arg_is(
            args[j],
            "--config"@,
        )
}

proof fn lemma_scan_pairs(args: Seq<Option<String>>, i: int, k: int, ctl: Option<usize>, config: Option<usize>)
    requires
        option_pairs(args, i, k),
        k <= args.len(),
    ensures
        scan(args, i, ctl, config) == scan(
            args,
            k,
            last_value(args, i, k, "--ctl"@, ctl),
            last_value(args, i, k, "--config"@, config),
        ),
    decreases k - i,
{
    reveal_strlit("--ctl");
    reveal_strlit("--config");
    assert("--ctl"@.len() == 5);
    assert("--config"@.len() == 8);
    if i < k {
        assert(arg_is(args[i], "--ctl"@) || arg_is(args[i], "--config"@));
        assert(option_pairs(args, i + 2, k)) by {
            assert forall|j: int|
                i + 2 <= j < k && (j - (i + 2)) % 2 == 0 implies #[trigger] arg_is(args[j], "--ctl"@)
                || arg_is(args[j], "--config"@) by {
                assert((j - i) % 2 == 0);
            }
        }
        if arg_is(args[i], "--ctl"@) {
            lemma_scan_pairs(args, i + 2, k, Some(#[verifier::truncate] ((i + 1) as usize)), config);
        } else {
            lemma_scan_pairs(args, i + 2, k, ctl, Some(#[verifier::truncate] ((i + 1) as usize)));
        }
    }
}

/// A command line made of `--ctl PATH` and `--config PATH` pairs in any
/// order, then `--` and a player command, is accepted: the FIFO is the path
/// after the last `--ctl`, the configuration the path after the last
/// `--config` (the default one if there is none), and the player command
/// starts after `--`. Without any `--ctl` it is refused for want of one.
/// An option never affects what the other one says.
pub proof fn lemma_option_pairs_in_any_order(args: Seq<Option<String>>, k: int)
    requires
        option_pairs(args, 0, k),
        k + 1 < args.len(),
        arg_is(args[k], "--"@),
    ensures
        parsed(args) == match last_value(args, 0, k, "--ctl"@, None) {
            None => Err(ArgError::CtlRequired),
            Some(c) => Ok(ArgLayout {
                ctl: c,
                config: last_value(args, 0, k, "--config"@, None),
                player: #[verifier::truncate] ((k + 1) as usize),
            }),
        },
{
    reveal_strlit("--ctl");
    reveal_strlit("--config");
    reveal_strlit("--");
    assert("--ctl"@.len() == 5);
    assert("--config"@.len() == 8);
    assert("--"@.len() == 2);
    lemma_scan_pairs(args, 0, k, None, None);
}

/// How a command line of option pairs is refused after them: at its end
/// (no `--`), with `--` as the last argument (no player), with `--config` or
/// `--ctl` as the last argument (no path), or at an argument that is no
/// option, which is named by its index.
pub proof fn lemma_refusals(args: Seq<Option<String>>, k: int)
    requires
        option_pairs(args, 0, k),
        k <= args.len(),
    ensures
        k == args.len() ==> parsed(args) == Err::<ArgLayout, ArgError>(ArgError::Usage),
        k == args.len() - 1 && arg_is(args[k], "--"@) ==> parsed(args) == Err::<ArgLayout, ArgError>(
            ArgError::NoPlayer,
        ),
        k == args.len() - 1 && arg_is(args[k], "--config"@) ==> parsed(args) == Err::<ArgLayout, ArgError>(
            ArgError::ConfigNeedsPath,
        ),
        k == args.len() - 1 && arg_is(args[k], "--ctl"@) ==> parsed(args) == Err::<ArgLayout, ArgError>(
            ArgError::Usage,
        ),
        k < args.len() && !arg_is(args[k], "--"@) && !arg_is(args[k], "--ctl"@) && !arg_is(
            args[k],
            "--config"@,
        ) ==> parsed(args) == Err::<ArgLayout, ArgError>(
            ArgError::Unexpected(#[verifier::truncate] (k as usize)),
        ),
{
    reveal_strlit("--ctl");
    reveal_strlit("--config");
    reveal_strlit("--");
    assert("--ctl"@.len() == 5);
    assert("--config"@.len() == 8);
    assert("--"@.len() == 2);
    lemma_scan_pairs(args, 0, k, None, None);
    let c = last_value(args, 0, k, "--ctl"@, None);
    let f = last_value(args, 0, k, "--config"@, None);
    if k == args.len() - 1 && arg_is(args[k], "--ctl"@) {
        assert(scan(args, k + 2, None, f) == Err::<ArgLayout, ArgError>(ArgError::Usage));
    }
}

} // verus!
