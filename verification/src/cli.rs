use vstd::prelude::*;
use crate::numparse::is_i32_numeral;
use crate::numparse::numeral_value;
use crate::numparse::parse_i32;

verus! {

#[verifier::external_type_specification]
#[verifier::external_body]
pub struct ExOptions(getopts::Options);

#[verifier::external_type_specification]
#[verifier::external_body]
pub struct ExMatches(getopts::Matches);

#[verifier::external_type_specification]
#[verifier::external_body]
pub struct ExFail(getopts::Fail);

/// The model of an option set: the short names of its declared option
/// groups, in declaration order.
pub uninterp spec fn options_model(opts: getopts::Options) -> Seq<Seq<char>>;

/// Whether every declared group is a required option that takes a
/// mandatory argument, under a one-ASCII-character short name and no long
/// name, and the set is otherwise as `Options::new` leaves it (default
/// parsing style, no long-only mode) — the one shape this library
/// declares.  On such a set getopts' parse outcome and matched values are
/// functions of the declared names and the argument texts alone.
pub uninterp spec fn options_all_required(opts: getopts::Options) -> bool;

/// The set of option names that a match result knows.  Looking up any
/// other name panics inside getopts.
pub uninterp spec fn known_names(m: getopts::Matches) -> Set<Seq<char>>;

/// The value that a match result supplies for a known option name.
pub uninterp spec fn matched_value(m: getopts::Matches, name: Seq<char>) -> Option<Seq<char>>;

/// Whether getopts accepts an argument list against a set of required
/// argument-taking single-character options with the given names.
pub uninterp spec fn getopts_accepts(names: Seq<Seq<char>>, args: Seq<Seq<char>>) -> bool;

/// The value that getopts matches for `name` when it accepts `args`
/// against such an option set.
pub uninterp spec fn getopts_value(
    names: Seq<Seq<char>>,
    args: Seq<Seq<char>>,
    name: Seq<char>,
) -> Option<Seq<char>>;

/// The texts of an argument list.
pub open spec fn args_model(args: Seq<String>) -> Seq<Seq<char>> {
    args.map_values(|s: String| s@)
}

/// The text of an optional string value.
pub open spec fn option_text(v: Option<String>) -> Option<Seq<char>> {
    match v {
        Some(s) => Some(s@),
        None => None,
    }
}

/// Relies on getopts::Options::new: creates a blank option set that
/// declares no option groups, with the default parsing behaviour.
#[verifier::external_body]
fn options_new() -> (r: getopts::Options)
    ensures
        options_all_required(r),
        options_model(r) == Seq::<Seq<char>>::empty(),
{
    getopts::Options::new()
}

/// Relies on getopts::Options::reqopt: declares a required option that
/// takes a mandatory argument, under the given one-character short name
/// and no long name.  getopts panics on other name shapes, which the
/// requires leaves out.
#[verifier::external_body]
fn add_required_option(
    opts: &mut getopts::Options,
    short_name: &str,
    long_name: &str,
    desc: &str,
    hint: &str,
)
    requires
        vstd::string::is_ascii(short_name),
        short_name@.len() == 1,
        long_name@.len() == 0,
        options_all_required(*old(opts)),
    ensures
        options_all_required(*final(opts)),
        options_model(*final(opts)) == options_model(*old(opts)).push(short_name@),
{
    opts.reqopt(short_name, long_name, desc, hint);
}

/// Relies on getopts::Options::parse: checks an argument list against the
/// declared options.  On a set of required argument-taking options the
/// outcome is a function of the declared names and the argument texts
/// alone, named `getopts_accepts`; on success the match result knows
/// exactly the declared names and supplies for each the value named
/// `getopts_value`.
#[verifier::external_body]
fn parse_options(opts: &getopts::Options, args: &Vec<String>) -> (r: Result<
    getopts::Matches,
    getopts::Fail,
>)
    requires
        options_all_required(*opts),
    ensures
        (r is Ok) == getopts_accepts(options_model(*opts), args_model(args@)),
        r matches Ok(m) ==> (forall|nm: Seq<char>|
            #[trigger] known_names(m).contains(nm) <==> options_model(*opts).contains(nm)),
        r matches Ok(m) ==> (forall|nm: Seq<char>|
            options_model(*opts).contains(nm) ==> #[trigger] matched_value(m, nm)
                == getopts_value(options_model(*opts), args_model(args@), nm)),
{
    opts.parse(args)
}

/// Relies on getopts::Matches::opt_str: returns the argument supplied to
/// the named matched option, or None when the option was not matched; the
/// result is a function of the match result and the name alone, named
/// `matched_value`.  getopts panics on names the match result does not
/// know, which the requires leaves out.
#[verifier::external_body]
fn opt_str(m: &getopts::Matches, name: &str) -> (r: Option<String>)
    requires
        known_names(*m).contains(name@),
    ensures
        option_text(r) == matched_value(*m, name@),
{
    m.opt_str(name)
}

/// Relies on the Display impl of getopts::Fail: renders the failure's
/// diagnostic message.
#[verifier::external_body]
fn fail_message(f: &getopts::Fail) -> (r: String) {
    f.to_string()
}

/// The two benchmark parameters.
#[derive(Clone, Copy, Debug, PartialEq, Eq)]
pub struct BenchConfig {
    pub num_iterations: i32,
    pub buffer_size: i32,
}

/// The single error class: the argument list does not provide both
/// required options with integer values.
#[derive(Debug, PartialEq, Eq)]
pub enum ArgError {
    /// The argument list does not conform to the declared options; the
    /// diagnostic message comes from getopts.
    BadOptions(String),
    /// A required option's value is absent from the match result.
    MissingValue,
    /// An option's value is not a decimal numeral that an `i32` can hold.
    NotAnInteger,
}

/// The configuration decision on the two raw option values: the iteration
/// count's value is examined first, then the buffer size's, and each must
/// be present and a decimal numeral that an `i32` can hold.
pub open spec fn config_decision(i_val: Option<Seq<char>>, b_val: Option<Seq<char>>) -> Result<
    BenchConfig,
    ArgError,
> {
    match i_val {
        None => Err(ArgError::MissingValue),
        Some(si) => if !is_i32_numeral(si) {
            Err(ArgError::NotAnInteger)
        } else {
            match b_val {
                None => Err(ArgError::MissingValue),
                Some(sb) => if !is_i32_numeral(sb) {
                    Err(ArgError::NotAnInteger)
                } else {
                    Ok(
                        BenchConfig {
                            num_iterations: numeral_value(si) as i32,
                            buffer_size: numeral_value(sb) as i32,
                        },
                    )
                },
            }
        },
    }
}

/// Decides the configuration from the raw option values the argument
/// matcher handed back: exactly `config_decision` on their texts.
pub fn config_from_values(i_val: Option<String>, b_val: Option<String>) -> (r: Result<
    BenchConfig,
    ArgError,
>)
    ensures
        r == config_decision(option_text(i_val), option_text(b_val)),
{
    let num_iterations: i32 = match i_val {
        None => {
            return Err(ArgError::MissingValue);
        },
        Some(s) => match parse_i32(s.as_str()) {
            None => {
                return Err(ArgError::NotAnInteger);
            },
            Some(v) => v,
        },
    };
    let buffer_size: i32 = match b_val {
        None => {
            return Err(ArgError::MissingValue);
        },
        Some(s) => match parse_i32(s.as_str()) {
            None => {
                return Err(ArgError::NotAnInteger);
            },
            Some(v) => v,
        },
    };
    Ok(BenchConfig { num_iterations, buffer_size })
}

/// The names of the two options the library declares: `-i` then `-b`.
pub open spec fn bench_option_names() -> Seq<Seq<char>> {
    seq!["i"@, "b"@]
}

/// Parses an argument list (without the program name) against the two
/// required integer options `-i` (iteration count) and `-b` (buffer
/// size).  When getopts rejects the list the result is its diagnostic as
/// a `BadOptions` error; when it accepts, the result is exactly the
/// `config_decision` on the two matched values.
pub fn parse_cli(args: &Vec<String>) -> (r: Result<BenchConfig, ArgError>)
    ensures
        !getopts_accepts(bench_option_names(), args_model(args@)) ==> r matches Err(
            ArgError::BadOptions(_),
        ),
        getopts_accepts(bench_option_names(), args_model(args@)) ==> r == config_decision(
            getopts_value(bench_option_names(), args_model(args@), "i"@),
            getopts_value(bench_option_names(), args_model(args@), "b"@),
        ),
{
    proof {
        reveal_strlit("i");
        reveal_strlit("b");
        reveal_strlit("");
    }
    let mut opts = options_new();
    add_required_option(&mut opts, "i", "", "number of iterations", "N");
    add_required_option(&mut opts, "b", "", "buffer size", "N");
    proof {
        assert(options_model(opts) =~= bench_option_names());
    }
    let m = match parse_options(&opts, args) {
        Ok(m) => m,
        Err(f) => {
            return Err(ArgError::BadOptions(fail_message(&f)));
        },
    };
    proof {
        assert(options_model(opts)[0] == "i"@);
        assert(options_model(opts)[1] == "b"@);
        assert(options_model(opts).contains("i"@));
        assert(options_model(opts).contains("b"@));
        assert(known_names(m).contains("i"@));
        assert(known_names(m).contains("b"@));
    }
    let i_val = opt_str(&m, "i");
    let b_val = opt_str(&m, "b");
    config_from_values(i_val, b_val)
}

} // verus!
