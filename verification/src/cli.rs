//! Command-line grammar of the probe: the `run`, `http-smoke` and `auth`
//! argument parsers, stated as a scan over the arguments.

use vstd::prelude::*;
use crate::logging::{log_format_from_name, log_level_from_name, LogFormat, LogLevel};
use crate::report::{catalog_profile_from_name, invalid_catalog_profile_message, CatalogProfile, ReportVerbosity};
use crate::schema_compat::{descriptor_profile_from_name, invalid_descriptor_profile_message, ToolDescriptorProfile};
use crate::text::{
    first_occurrence, lowercase, opt_view, parse_unsigned, str_eq, strings_view, trim,
    unsigned_at_most,
};
use crate::transport::{transport_from_name, TransportType};

verus! {

/// A parse failure: the message, and whether help was asked for.
pub struct ParseError {
    pub error: String,
    pub help: bool,
}

/// A parse failure as plain values.
pub struct ParseFailure {
    pub error: Seq<char>,
    pub help: bool,
}

/// The plain values of a parse failure.
pub open spec fn failure_view(e: ParseError) -> ParseFailure {
    ParseFailure { error: e.error@, help: e.help }
}

/// The failure raised when help is requested.
pub open spec fn help_failure() -> ParseFailure {
    ParseFailure { error: "help requested"@, help: true }
}

/// An ordinary failure with message `m`.
pub open spec fn failure(m: Seq<char>) -> ParseFailure {
    ParseFailure { error: m, help: false }
}

fn fail(m: String) -> (r: ParseError)
    ensures
        failure_view(r) == failure(m@),
{
    ParseError { error: m, help: false }
}

fn fail_lit(m: &str) -> (r: ParseError)
    ensures
        failure_view(r) == failure(m@),
{
    ParseError { error: String::from_str(m), help: false }
}

/// Name/value pairs with distinct names (headers, environment).
pub open spec fn pairs_view(h: Seq<(String, String)>) -> Seq<(Seq<char>, Seq<char>)> {
    h.map_values(|p: (String, String)| (p.0@, p.1@))
}

/// The position of `k` among the names, if present.
pub open spec fn pair_index(m: Seq<(Seq<char>, Seq<char>)>, k: Seq<char>) -> Option<int> {
    if exists|i: int| 0 <= i < m.len() && m[i].0 == k {
        Some(choose|i: int| 0 <= i < m.len() && m[i].0 == k)
    } else {
        None
    }
}

/// Names are distinct.
pub open spec fn distinct_names(m: Seq<(Seq<char>, Seq<char>)>) -> bool {
    forall|i: int, j: int| 0 <= i < j < m.len() ==> m[i].0 != m[j].0
}

/// Map insertion: replace the value under `k`, or append the pair.
pub open spec fn pairs_insert(m: Seq<(Seq<char>, Seq<char>)>, k: Seq<char>, v: Seq<char>) -> Seq<
    (Seq<char>, Seq<char>),
> {
    match pair_index(m, k) {
        Some(i) => m.update(i, (k, v)),
        None => m.push((k, v)),
    }
}

/// Insert `k = v` into a list of distinct name/value pairs. Such a list
/// stands for a string-keyed map: vstd's map specifications hold only for
/// key types it knows to obey its hashing and ordering laws, and `String` is
/// not among them, so the list and its distinct-names invariant are what the
/// contracts speak of.
#[verifier::loop_isolation(false)]
pub fn insert_pair(m: &mut Vec<(String, String)>, k: String, v: String)
    requires
        distinct_names(pairs_view(old(m)@)),
    ensures
        distinct_names(pairs_view(final(m)@)),
        pairs_view(final(m)@) == pairs_insert(pairs_view(old(m)@), k@, v@),
{
    let ghost pv = pairs_view(m@);
    let mut i: usize = 0;
    while i < m.len()
        invariant
            i <= m@.len(),
            pv == pairs_view(m@),
            distinct_names(pv),
            forall|j: int| 0 <= j < i ==> m@[j].0@ != k@,
        decreases m@.len() - i,
    {
        if str_eq(m[i].0.as_str(), k.as_str()) {
            proof {
                assert(pv[i as int].0 == k@);
                let c = choose|j: int| 0 <= j < pv.len() && pv[j].0 == k@;
                assert(pv[c].0 == k@);
                if c != i {
                    if c < i {
                        assert(pv[c].0 != pv[i as int].0);
                    } else {
                        assert(pv[i as int].0 != pv[c].0);
                    }
                }
            }
            m.set(i, (k, v));
            proof {
                assert(pairs_view(m@) =~= pv.update(i as int, (k@, v@)));
            }
            return;
        }
        i = i + 1;
    }
    proof {
        assert forall|j: int| 0 <= j < pv.len() implies pv[j].0 != k@ by {
            assert(pv[j].0 == m@[j].0@);
        }
    }
    m.push((k, v));
    proof {
        assert(pairs_view(m@) =~= pv.push((k@, v@)));
    }
}

/// The arguments of `probe run` as plain values, while they are scanned.
pub struct ArgsModel {
    pub transport: Option<TransportType>,
    pub command: Option<Seq<char>>,
    pub cmd_args: Seq<Seq<char>>,
    pub url: Option<Seq<char>>,
    pub headers: Seq<(Seq<char>, Seq<char>)>,
    pub pretty: bool,
    pub out_path: Option<Seq<char>>,
    pub include_raw: bool,
    pub timeout_ms: Option<u64>,
    pub retries: Option<u32>,
    pub retry_delay_ms: Option<u64>,
    pub expect_auth_required: Option<bool>,
    pub config_path: Option<Seq<char>>,
    pub profile: Option<Seq<char>>,
    pub log_level: Option<LogLevel>,
    pub log_format: Option<LogFormat>,
    pub trace: Option<bool>,
    pub trace_limit: Option<usize>,
    pub trace_max_bytes: Option<usize>,
    pub descriptor_profile: Option<ToolDescriptorProfile>,
    pub catalog_profile: Option<CatalogProfile>,
    pub catalog_contract_path: Option<Seq<char>>,
    pub verbosity: Option<ReportVerbosity>,
    pub cwd: Option<Seq<char>>,
    pub env: Seq<(Seq<char>, Seq<char>)>,
    pub use_auth: Option<bool>,
    pub access_token_path: Option<Seq<char>>,
    pub script_path: Option<Seq<char>>,
    pub snapshot_write: bool,
}

/// Nothing parsed yet.
pub open spec fn empty_args() -> ArgsModel {
    ArgsModel {
        transport: None,
        command: None,
        cmd_args: Seq::empty(),
        url: None,
        headers: Seq::empty(),
        pretty: false,
        out_path: None,
        include_raw: false,
        timeout_ms: None,
        retries: None,
        retry_delay_ms: None,
        expect_auth_required: None,
        config_path: None,
        profile: None,
        log_level: None,
        log_format: None,
        trace: None,
        trace_limit: None,
        trace_max_bytes: None,
        descriptor_profile: None,
        catalog_profile: None,
        catalog_contract_path: None,
        verbosity: None,
        cwd: None,
        env: Seq::empty(),
        use_auth: None,
        access_token_path: None,
        script_path: None,
        snapshot_write: false,
    }
}

/// The message for an option that needs a value and has none.
pub open spec fn missing_value(opt: Seq<char>) -> ParseFailure {
    failure("Missing value for "@ + opt)
}

/// The transport-name error.
pub open spec fn invalid_transport_message(v: Seq<char>) -> Seq<char> {
    "Invalid transport `"@ + v + "`. Expected one of: stdio, sse, streamable-http."@
}

/// Split `key<sep>value` at the first separator.
pub open spec fn split_at_first(v: Seq<char>, sep: char) -> Option<(Seq<char>, Seq<char>)> {
    match first_occurrence(v, seq![sep]) {
        Some(i) => Some((v.subrange(0, i), v.subrange(i + 1, v.len() as int))),
        None => None,
    }
}

/// The effect of one `run` option (with the argument after it, if any):
/// the updated arguments and whether that next argument was taken, or the
/// failure.
#[verifier::opaque]
pub open spec fn apply_run_option(m: ArgsModel, opt: Seq<char>, next: Option<Seq<char>>) -> Result<
    (ArgsModel, bool),
    ParseFailure,
> {
    if opt == "--transport"@ {
        match next {
            None => Err(missing_value(opt)),
            Some(v) => match transport_from_name(v) {
                Some(t) => Ok((ArgsModel { transport: Some(t), ..m }, true)),
                None => Err(failure(invalid_transport_message(v))),
            },
        }
    } else if opt == "--command"@ {
        Ok((ArgsModel { command: next, ..m }, true))
    } else if opt == "--arg"@ {
        match next {
            Some(v) => Ok((ArgsModel { cmd_args: m.cmd_args.push(v), ..m }, true)),
            None => Ok((m, true)),
        }
    } else if opt == "--url"@ {
        Ok((ArgsModel { url: next, ..m }, true))
    } else if opt == "--header"@ {
        match next {
            None => Err(missing_value(opt)),
            Some(v) => match split_at_first(v, ':') {
                None => Err(failure("Header must be in key:value form"@)),
                Some((k, hv)) => if k.len() == 0 {
                    Err(failure("Header must be in key:value form"@))
                } else {
                    Ok(
                        (
                            ArgsModel { headers: pairs_insert(m.headers, trim(k), trim(hv)), ..m },
                            true,
                        ),
                    )
                },
            },
        }
    } else if opt == "--pretty"@ {
        Ok((ArgsModel { pretty: true, ..m }, false))
    } else if opt == "--json"@ {
        Ok((ArgsModel { pretty: false, ..m }, false))
    } else if opt == "--out"@ {
        match next {
            None => Err(missing_value(opt)),
            Some(v) => Ok((ArgsModel { out_path: Some(v), ..m }, true)),
        }
    } else if opt == "--include-raw"@ {
        Ok((ArgsModel { include_raw: true, ..m }, false))
    } else if opt == "--timeout-ms"@ {
        match next {
            None => Err(missing_value(opt)),
            Some(v) => match unsigned_at_most(v, u64::MAX as nat) {
                Some(n) => Ok((ArgsModel { timeout_ms: Some(n as u64), ..m }, true)),
                None => Err(failure("Invalid --timeout-ms value"@)),
            },
        }
    } else if opt == "--retries"@ {
        match next {
            None => Err(missing_value(opt)),
            Some(v) => match unsigned_at_most(v, u32::MAX as nat) {
                Some(n) => Ok((ArgsModel { retries: Some(n as u32), ..m }, true)),
                None => Err(failure("Invalid --retries value"@)),
            },
        }
    } else if opt == "--retry-delay-ms"@ {
        match next {
            None => Err(missing_value(opt)),
            Some(v) => match unsigned_at_most(v, u64::MAX as nat) {
                Some(n) => Ok((ArgsModel { retry_delay_ms: Some(n as u64), ..m }, true)),
                None => Err(failure("Invalid --retry-delay-ms value"@)),
            },
        }
    } else if opt == "--expect-auth-required"@ {
        Ok((ArgsModel { expect_auth_required: Some(true), ..m }, false))
    } else if opt == "--use-auth"@ {
        Ok((ArgsModel { use_auth: Some(true), ..m }, false))
    } else if opt == "--access-token-path"@ {
        match next {
            None => Err(missing_value(opt)),
            Some(v) => Ok((ArgsModel { access_token_path: Some(v), ..m }, true)),
        }
    } else if opt == "--config"@ {
        match next {
            None => Err(missing_value(opt)),
            Some(v) => Ok((ArgsModel { config_path: Some(v), ..m }, true)),
        }
    } else if opt == "--profile"@ {
        match next {
            None => Err(missing_value(opt)),
            Some(v) => Ok((ArgsModel { profile: Some(v), ..m }, true)),
        }
    } else if opt == "--log-level"@ {
        match next {
            None => Err(missing_value(opt)),
            Some(v) => match log_level_from_name(lowercase(trim(v))) {
                Some(l) => Ok((ArgsModel { log_level: Some(l), ..m }, true)),
                None => Err(failure("Invalid --log-level value"@)),
            },
        }
    } else if opt == "--log-format"@ {
        match next {
            None => Err(missing_value(opt)),
            Some(v) => match log_format_from_name(lowercase(trim(v))) {
                Some(f) => Ok((ArgsModel { log_format: Some(f), ..m }, true)),
                None => Err(failure("Invalid --log-format value"@)),
            },
        }
    } else if opt == "--trace"@ {
        Ok((ArgsModel { trace: Some(true), ..m }, false))
    } else if opt == "--trace-limit"@ {
        match next {
            None => Err(missing_value(opt)),
            Some(v) => match unsigned_at_most(v, usize::MAX as nat) {
                Some(n) => if n == 0 {
                    Err(failure("Invalid --trace-limit value"@))
                } else {
                    Ok((ArgsModel { trace_limit: Some(n as usize), ..m }, true))
                },
                None => Err(failure("Invalid --trace-limit value"@)),
            },
        }
    } else if opt == "--trace-max-bytes"@ {
        match next {
            None => Err(missing_value(opt)),
            Some(v) => match unsigned_at_most(v, usize::MAX as nat) {
                Some(n) => if n == 0 {
                    Err(failure("Invalid --trace-max-bytes value"@))
                } else {
                    Ok((ArgsModel { trace_max_bytes: Some(n as usize), ..m }, true))
                },
                None => Err(failure("Invalid --trace-max-bytes value"@)),
            },
        }
    } else if opt == "--descriptor-profile"@ {
        match next {
            None => Err(missing_value(opt)),
            Some(v) => match descriptor_profile_from_name(v) {
                Some(p) => Ok((ArgsModel { descriptor_profile: Some(p), ..m }, true)),
                None => Err(failure(invalid_descriptor_profile_message(v))),
            },
        }
    } else if opt == "--catalog-profile"@ {
        match next {
            None => Err(missing_value(opt)),
            Some(v) => match catalog_profile_from_name(v) {
                Some(p) => Ok((ArgsModel { catalog_profile: Some(p), ..m }, true)),
                None => Err(failure(invalid_catalog_profile_message(v))),
            },
        }
    } else if opt == "--catalog-contract"@ {
        match next {
            None => Err(missing_value(opt)),
            Some(v) => Ok((ArgsModel { catalog_contract_path: Some(v), ..m }, true)),
        }
    } else if opt == "--verbosity"@ {
        match next {
            None => Err(missing_value(opt)),
            Some(v) => if v == "summary"@ {
                Ok((ArgsModel { verbosity: Some(ReportVerbosity::Summary), ..m }, true))
            } else if v == "full"@ {
                Ok((ArgsModel { verbosity: Some(ReportVerbosity::Full), ..m }, true))
            } else {
                Err(failure("Invalid --verbosity value"@))
            },
        }
    } else if opt == "--cwd"@ {
        match next {
            None => Err(missing_value(opt)),
            Some(v) => Ok((ArgsModel { cwd: Some(v), ..m }, true)),
        }
    } else if opt == "--env"@ {
        match next {
            None => Err(missing_value(opt)),
            Some(v) => match split_at_first(v, '=') {
                None => Err(failure("Env must be in key=value form"@)),
                Some((k, ev)) => if k.len() == 0 {
                    Err(failure("Env key cannot be empty"@))
                } else {
                    Ok((ArgsModel { env: pairs_insert(m.env, trim(k), ev), ..m }, true))
                },
            },
        }
    } else if opt == "--script"@ {
        match next {
            None => Err(missing_value(opt)),
            Some(v) => Ok((ArgsModel { script_path: Some(v), ..m }, true)),
        }
    } else if opt == "--snapshot-write"@ {
        Ok((ArgsModel { snapshot_write: true, ..m }, false))
    } else {
        Err(failure("Unknown argument: "@ + opt))
    }
}

/// The argument after position `i`, if any.
pub open spec fn next_arg(args: Seq<Seq<char>>, i: int) -> Option<Seq<char>> {
    if 0 <= i + 1 < args.len() {
        Some(args[i + 1])
    } else {
        None
    }
}

/// Scan the `run` options from position `i`.
pub open spec fn scan_run(args: Seq<Seq<char>>, i: int, m: ArgsModel) -> Result<ArgsModel, ParseFailure>
    decreases args.len() + 1 - i,
{
    if i < 0 || i >= args.len() {
        Ok(m)
    } else {
        match apply_run_option(m, args[i], next_arg(args, i)) {
            Err(e) => Err(e),
            Ok((m2, took)) => scan_run(args, i + if took { 2int } else { 1int }, m2),
        }
    }
}

/// Some argument asks for help.
pub open spec fn asks_help(args: Seq<Seq<char>>) -> bool {
    args.contains("--help"@) || args.contains("-h"@)
}

/// A script run may not be combined with target options.
pub open spec fn script_conflicts(m: ArgsModel) -> bool {
    m.transport is Some || m.command is Some || m.url is Some || m.cmd_args.len() > 0
        || m.headers.len() > 0 || m.config_path is Some || m.profile is Some || m.use_auth is Some
        || m.access_token_path is Some || m.trace is Some || m.trace_limit is Some
        || m.trace_max_bytes is Some || m.descriptor_profile is Some || m.catalog_profile is Some
        || m.catalog_contract_path is Some || m.verbosity is Some || m.cwd is Some || m.env.len()
        > 0
}

/// The message for a script run combined with target options.
pub open spec fn script_conflict_message() -> Seq<char> {
    "Do not mix --script with transport/command/url/header/cwd/env/config/profile/auth/trace/descriptor/catalog/contract/verbosity options."@
}

/// The outcome of parsing `run` arguments: the scanned arguments (which the
/// result then reports), or the failure.
pub open spec fn parse_run(argv: Seq<Seq<char>>) -> Result<ArgsModel, ParseFailure> {
    if asks_help(argv) {
        Err(help_failure())
    } else {
        let args = if argv.len() > 0 && argv[0] == "run"@ {
            argv.drop_first()
        } else {
            argv
        };
        match scan_run(args, 0, empty_args()) {
            Err(e) => Err(e),
            Ok(m) => if m.script_path is Some {
                if script_conflicts(m) {
                    Err(failure(script_conflict_message()))
                } else {
                    Ok(m)
                }
            } else if m.transport is None && m.config_path is None {
                Err(failure("Missing --transport (or --config)"@))
            } else {
                Ok(m)
            },
        }
    }
}


/// Target settings given on the command line or in a config file.
pub struct ProbeTargetOverrides {
    pub transport_type: Option<TransportType>,
    pub command: Option<String>,
    pub args: Option<Vec<String>>,
    pub cwd: Option<String>,
    pub env: Option<Vec<(String, String)>>,
    pub url: Option<String>,
    pub headers: Option<Vec<(String, String)>>,
    pub timeout_ms: Option<u64>,
    pub retries: Option<u32>,
    pub retry_delay_ms: Option<u64>,
    pub expect_auth_required: Option<bool>,
    pub log_level: Option<LogLevel>,
    pub log_format: Option<LogFormat>,
    pub trace: Option<bool>,
    pub trace_limit: Option<usize>,
    pub trace_max_bytes: Option<usize>,
    pub descriptor_profile: Option<ToolDescriptorProfile>,
    pub catalog_profile: Option<CatalogProfile>,
    pub catalog_contract: Option<crate::report::CatalogContract>,
    pub catalog_contract_path: Option<String>,
}

/// The parsed `run` arguments.
pub struct ParsedArgs {
    pub overrides: ProbeTargetOverrides,
    pub pretty: bool,
    pub out_path: Option<String>,
    pub include_raw: bool,
    pub verbosity: Option<ReportVerbosity>,
    pub config_path: Option<String>,
    pub profile: Option<String>,
    pub use_auth: Option<bool>,
    pub access_token_path: Option<String>,
    pub script_path: Option<String>,
    pub snapshot_write: bool,
}

/// An optional list of strings as plain values.
pub open spec fn opt_strings_view(o: Option<Vec<String>>) -> Option<Seq<Seq<char>>> {
    match o {
        Some(v) => Some(strings_view(v@)),
        None => None,
    }
}

/// An optional list of pairs as plain values.
pub open spec fn opt_pairs_view(o: Option<Vec<(String, String)>>) -> Option<Seq<(Seq<char>, Seq<char>)>> {
    match o {
        Some(v) => Some(pairs_view(v@)),
        None => None,
    }
}

/// A list given as an option: absent when empty.
pub open spec fn nonempty_seq<T>(s: Seq<T>) -> Option<Seq<T>> {
    if s.len() == 0 {
        None
    } else {
        Some(s)
    }
}

/// The overrides are exactly the scanned target options.
pub open spec fn overrides_match(o: ProbeTargetOverrides, m: ArgsModel) -> bool {
    &&& o.transport_type == m.transport
    &&& opt_view(o.command) == m.command
    &&& opt_strings_view(o.args) == nonempty_seq(m.cmd_args)
    &&& opt_view(o.cwd) == m.cwd
    &&& opt_pairs_view(o.env) == nonempty_seq(m.env)
    &&& opt_view(o.url) == m.url
    &&& opt_pairs_view(o.headers) == nonempty_seq(m.headers)
    &&& o.timeout_ms == m.timeout_ms
    &&& o.retries == m.retries
    &&& o.retry_delay_ms == m.retry_delay_ms
    &&& o.expect_auth_required == m.expect_auth_required
    &&& o.log_level == m.log_level
    &&& o.log_format == m.log_format
    &&& o.trace == m.trace
    &&& o.trace_limit == m.trace_limit
    &&& o.trace_max_bytes == m.trace_max_bytes
    &&& o.descriptor_profile == m.descriptor_profile
    &&& o.catalog_profile == m.catalog_profile
    &&& o.catalog_contract is None
    &&& opt_view(o.catalog_contract_path) == m.catalog_contract_path
}

/// No target option is set.
pub open spec fn overrides_empty(o: ProbeTargetOverrides) -> bool {
    &&& o.transport_type is None && o.command is None && o.args is None && o.cwd is None
    &&& o.env is None && o.url is None && o.headers is None && o.timeout_ms is None
    &&& o.retries is None && o.retry_delay_ms is None && o.expect_auth_required is None
    &&& o.log_level is None && o.log_format is None && o.trace is None && o.trace_limit is None
    &&& o.trace_max_bytes is None && o.descriptor_profile is None && o.catalog_profile is None
    &&& o.catalog_contract is None && o.catalog_contract_path is None
}

/// The parsed arguments report the scanned ones; a script run carries no
/// target options.
pub open spec fn parsed_matches(p: ParsedArgs, m: ArgsModel) -> bool {
    &&& p.pretty == m.pretty
    &&& opt_view(p.out_path) == m.out_path
    &&& p.include_raw == m.include_raw
    &&& p.verbosity == m.verbosity
    &&& opt_view(p.config_path) == m.config_path
    &&& opt_view(p.profile) == m.profile
    &&& p.use_auth == m.use_auth
    &&& opt_view(p.access_token_path) == m.access_token_path
    &&& opt_view(p.script_path) == m.script_path
    &&& p.snapshot_write == m.snapshot_write
    &&& if m.script_path is Some {
        overrides_empty(p.overrides)
    } else {
        overrides_match(p.overrides, m)
    }
}

/// The `run` arguments while they are scanned.
struct ArgsState {
    transport: Option<TransportType>,
    command: Option<String>,
    cmd_args: Vec<String>,
    url: Option<String>,
    headers: Vec<(String, String)>,
    pretty: bool,
    out_path: Option<String>,
    include_raw: bool,
    timeout_ms: Option<u64>,
    retries: Option<u32>,
    retry_delay_ms: Option<u64>,
    expect_auth_required: Option<bool>,
    config_path: Option<String>,
    profile: Option<String>,
    log_level: Option<LogLevel>,
    log_format: Option<LogFormat>,
    trace: Option<bool>,
    trace_limit: Option<usize>,
    trace_max_bytes: Option<usize>,
    descriptor_profile: Option<ToolDescriptorProfile>,
    catalog_profile: Option<CatalogProfile>,
    catalog_contract_path: Option<String>,
    verbosity: Option<ReportVerbosity>,
    cwd: Option<String>,
    env: Vec<(String, String)>,
    use_auth: Option<bool>,
    access_token_path: Option<String>,
    script_path: Option<String>,
    snapshot_write: bool,
}

impl ArgsState {
    spec fn model(&self) -> ArgsModel {
        ArgsModel {
            transport: self.transport,
            command: opt_view(self.command),
            cmd_args: strings_view(self.cmd_args@),
            url: opt_view(self.url),
            headers: pairs_view(self.headers@),
            pretty: self.pretty,
            out_path: opt_view(self.out_path),
            include_raw: self.include_raw,
            timeout_ms: self.timeout_ms,
            retries: self.retries,
            retry_delay_ms: self.retry_delay_ms,
            expect_auth_required: self.expect_auth_required,
            config_path: opt_view(self.config_path),
            profile: opt_view(self.profile),
            log_level: self.log_level,
            log_format: self.log_format,
            trace: self.trace,
            trace_limit: self.trace_limit,
            trace_max_bytes: self.trace_max_bytes,
            descriptor_profile: self.descriptor_profile,
            catalog_profile: self.catalog_profile,
            catalog_contract_path: opt_view(self.catalog_contract_path),
            verbosity: self.verbosity,
            cwd: opt_view(self.cwd),
            env: pairs_view(self.env@),
            use_auth: self.use_auth,
            access_token_path: opt_view(self.access_token_path),
            script_path: opt_view(self.script_path),
            snapshot_write: self.snapshot_write,
        }
    }

    spec fn wf(&self) -> bool {
        distinct_names(pairs_view(self.headers@)) && distinct_names(pairs_view(self.env@))
    }
}

fn own_opt(v: Option<&str>) -> (r: Option<String>)
    ensures
        opt_view(r) == match v {
            Some(s) => Some(s@),
            None => None,
        },
{
    match v {
        Some(s) => Some(String::from_str(s)),
        None => None,
    }
}

fn missing(opt: &str) -> (r: ParseError)
    ensures
        failure_view(r) == missing_value(opt@),
{
    let mut m = String::from_str("Missing value for ");
    m.append(opt);
    fail(m)
}

/// Split `value` at the first `sep`.
fn split_first(value: &str, sep: char) -> (r: Option<(String, String)>)
    ensures
        match r {
            Some((k, v)) => split_at_first(value@, sep) == Some((k@, v@)),
            None => split_at_first(value@, sep) is None,
        },
{
    let cs = crate::text::chars_of(value);
    let mut needle: Vec<char> = Vec::new();
    needle.push(sep);
    assert(needle@ =~= seq![sep]);
    match crate::text::find_seq(&cs, &needle) {
        None => None,
        Some(i) => {
            proof {
                crate::text::lemma_first_occurrence_is(cs@, needle@, i as int);
                assert(crate::text::occurs_at(cs@, needle@, i as int));
            }
            assert(i + 1 <= cs.len());
            let k = crate::text::slice_chars(&cs, 0, i);
            let v = crate::text::slice_chars(&cs, i + 1, cs.len());
            Some((crate::text::string_of(&k), crate::text::string_of(&v)))
        },
    }
}

#[verifier::rlimit(40)]
fn apply_run_option_exec(st: &mut ArgsState, opt: &str, next: Option<&str>) -> (r: Result<
    bool,
    ParseError,
>)
    requires
        old(st).wf(),
    ensures
        final(st).wf(),
        match apply_run_option(
            old(st).model(),
            opt@,
            match next {
                Some(v) => Some(v@),
                None => None,
            },
        ) {
            Ok((m2, took)) => r == Ok::<bool, ParseError>(took) && final(st).model() == m2,
            Err(e) => r is Err && failure_view(r->Err_0) == e,
        },
{
    proof {
        reveal(apply_run_option);
    }
    if str_eq(opt, "--transport") {
        match next {
            None => Err(missing(opt)),
            Some(v) => match TransportType::parse(v) {
                Some(t) => {
                    st.transport = Some(t);
                    Ok(true)
                },
                None => {
                    let mut m = String::from_str("Invalid transport `");
                    m.append(v);
                    m.append("`. Expected one of: stdio, sse, streamable-http.");
                    Err(fail(m))
                },
            },
        }
    } else if str_eq(opt, "--command") {
        st.command = own_opt(next);
        Ok(true)
    } else if str_eq(opt, "--arg") {
        match next {
            Some(v) => {
                let ghost before = st.cmd_args@;
                st.cmd_args.push(String::from_str(v));
                proof {
                    assert(strings_view(st.cmd_args@) =~= strings_view(before).push(v@));
                }
                Ok(true)
            },
            None => Ok(true),
        }
    } else if str_eq(opt, "--url") {
        st.url = own_opt(next);
        Ok(true)
    } else if str_eq(opt, "--header") {
        match next {
            None => Err(missing(opt)),
            Some(v) => match split_first(v, ':') {
                None => Err(fail_lit("Header must be in key:value form")),
                Some((k, hv)) => {
                    if k.as_str().unicode_len() == 0 {
                        Err(fail_lit("Header must be in key:value form"))
                    } else {
                        let kt = crate::text::trim_str(k.as_str());
                        let vt = crate::text::trim_str(hv.as_str());
                        insert_pair(&mut st.headers, kt, vt);
                        Ok(true)
                    }
                },
            },
        }
    } else if str_eq(opt, "--pretty") {
        st.pretty = true;
        Ok(false)
    } else if str_eq(opt, "--json") {
        st.pretty = false;
        Ok(false)
    } else if str_eq(opt, "--out") {
        match next {
            None => Err(missing(opt)),
            Some(v) => {
                st.out_path = Some(String::from_str(v));
                Ok(true)
            },
        }
    } else if str_eq(opt, "--include-raw") {
        st.include_raw = true;
        Ok(false)
    } else if str_eq(opt, "--timeout-ms") {
        match next {
            None => Err(missing(opt)),
            Some(v) => match parse_unsigned(v, u64::MAX) {
                Some(n) => {
                    st.timeout_ms = Some(n);
                    Ok(true)
                },
                None => Err(fail_lit("Invalid --timeout-ms value")),
            },
        }
    } else if str_eq(opt, "--retries") {
        match next {
            None => Err(missing(opt)),
            Some(v) => match parse_unsigned(v, u32::MAX as u64) {
                Some(n) => {
                    st.retries = Some(n as u32);
                    Ok(true)
                },
                None => Err(fail_lit("Invalid --retries value")),
            },
        }
    } else if str_eq(opt, "--retry-delay-ms") {
        match next {
            None => Err(missing(opt)),
            Some(v) => match parse_unsigned(v, u64::MAX) {
                Some(n) => {
                    st.retry_delay_ms = Some(n);
                    Ok(true)
                },
                None => Err(fail_lit("Invalid --retry-delay-ms value")),
            },
        }
    } else if str_eq(opt, "--expect-auth-required") {
        st.expect_auth_required = Some(true);
        Ok(false)
    } else if str_eq(opt, "--use-auth") {
        st.use_auth = Some(true);
        Ok(false)
    } else if str_eq(opt, "--access-token-path") {
        match next {
            None => Err(missing(opt)),
            Some(v) => {
                st.access_token_path = Some(String::from_str(v));
                Ok(true)
            },
        }
    } else if str_eq(opt, "--config") {
        match next {
            None => Err(missing(opt)),
            Some(v) => {
                st.config_path = Some(String::from_str(v));
                Ok(true)
            },
        }
    } else if str_eq(opt, "--profile") {
        match next {
            None => Err(missing(opt)),
            Some(v) => {
                st.profile = Some(String::from_str(v));
                Ok(true)
            },
        }
    } else if str_eq(opt, "--log-level") {
        match next {
            None => Err(missing(opt)),
            Some(v) => match LogLevel::parse(v) {
                Some(l) => {
                    st.log_level = Some(l);
                    Ok(true)
                },
                None => Err(fail_lit("Invalid --log-level value")),
            },
        }
    } else if str_eq(opt, "--log-format") {
        match next {
            None => Err(missing(opt)),
            Some(v) => match LogFormat::parse(v) {
                Some(f) => {
                    st.log_format = Some(f);
                    Ok(true)
                },
                None => Err(fail_lit("Invalid --log-format value")),
            },
        }
    } else if str_eq(opt, "--trace") {
        st.trace = Some(true);
        Ok(false)
    } else if str_eq(opt, "--trace-limit") {
        match next {
            None => Err(missing(opt)),
            Some(v) => match parse_unsigned(v, usize::MAX as u64) {
                Some(n) => {
                    if n == 0 {
                        Err(fail_lit("Invalid --trace-limit value"))
                    } else {
                        st.trace_limit = Some(n as usize);
                        Ok(true)
                    }
                },
                None => Err(fail_lit("Invalid --trace-limit value")),
            },
        }
    } else if str_eq(opt, "--trace-max-bytes") {
        match next {
            None => Err(missing(opt)),
            Some(v) => match parse_unsigned(v, usize::MAX as u64) {
                Some(n) => {
                    if n == 0 {
                        Err(fail_lit("Invalid --trace-max-bytes value"))
                    } else {
                        st.trace_max_bytes = Some(n as usize);
                        Ok(true)
                    }
                },
                None => Err(fail_lit("Invalid --trace-max-bytes value")),
            },
        }
    } else if str_eq(opt, "--descriptor-profile") {
        match next {
            None => Err(missing(opt)),
            Some(v) => match ToolDescriptorProfile::parse(v) {
                Ok(p) => {
                    st.descriptor_profile = Some(p);
                    Ok(true)
                },
                Err(e) => Err(fail(e)),
            },
        }
    } else if str_eq(opt, "--catalog-profile") {
        match next {
            None => Err(missing(opt)),
            Some(v) => match CatalogProfile::parse(v) {
                Ok(p) => {
                    st.catalog_profile = Some(p);
                    Ok(true)
                },
                Err(e) => Err(fail(e)),
            },
        }
    } else if str_eq(opt, "--catalog-contract") {
        match next {
            None => Err(missing(opt)),
            Some(v) => {
                st.catalog_contract_path = Some(String::from_str(v));
                Ok(true)
            },
        }
    } else if str_eq(opt, "--verbosity") {
        match next {
            None => Err(missing(opt)),
            Some(v) => {
                if str_eq(v, "summary") {
                    st.verbosity = Some(ReportVerbosity::Summary);
                    Ok(true)
                } else if str_eq(v, "full") {
                    st.verbosity = Some(ReportVerbosity::Full);
                    Ok(true)
                } else {
                    Err(fail_lit("Invalid --verbosity value"))
                }
            },
        }
    } else if str_eq(opt, "--cwd") {
        match next {
            None => Err(missing(opt)),
            Some(v) => {
                st.cwd = Some(String::from_str(v));
                Ok(true)
            },
        }
    } else if str_eq(opt, "--env") {
        match next {
            None => Err(missing(opt)),
            Some(v) => match split_first(v, '=') {
                None => Err(fail_lit("Env must be in key=value form")),
                Some((k, ev)) => {
                    if k.as_str().unicode_len() == 0 {
                        Err(fail_lit("Env key cannot be empty"))
                    } else {
                        let kt = crate::text::trim_str(k.as_str());
                        insert_pair(&mut st.env, kt, ev);
                        Ok(true)
                    }
                },
            },
        }
    } else if str_eq(opt, "--script") {
        match next {
            None => Err(missing(opt)),
            Some(v) => {
                st.script_path = Some(String::from_str(v));
                Ok(true)
            },
        }
    } else if str_eq(opt, "--snapshot-write") {
        st.snapshot_write = true;
        Ok(false)
    } else {
        let mut m = String::from_str("Unknown argument: ");
        m.append(opt);
        Err(fail(m))
    }
}


fn asks_help_exec(argv: &[String]) -> (r: bool)
    ensures
        r == asks_help(strings_view(argv@)),
{
    let ghost sv = strings_view(argv@);
    let mut i: usize = 0;
    while i < argv.len()
        invariant
            i <= argv@.len(),
            sv == strings_view(argv@),
            forall|j: int| 0 <= j < i ==> argv@[j]@ != "--help"@ && argv@[j]@ != "-h"@,
        decreases argv@.len() - i,
    {
        if str_eq(argv[i].as_str(), "--help") || str_eq(argv[i].as_str(), "-h") {
            assert(sv[i as int] == argv@[i as int]@);
            return true;
        }
        i = i + 1;
    }
    proof {
        if sv.contains("--help"@) {
            let k = choose|k: int| 0 <= k < sv.len() && sv[k] == "--help"@;
            assert(argv@[k]@ == "--help"@);
        }
        if sv.contains("-h"@) {
            let k = choose|k: int| 0 <= k < sv.len() && sv[k] == "-h"@;
            assert(argv@[k]@ == "-h"@);
        }
    }
    false
}

fn help_error() -> (r: ParseError)
    ensures
        failure_view(r) == help_failure(),
{
    ParseError { error: String::from_str("help requested"), help: true }
}

fn opt_vec(v: Vec<String>) -> (r: Option<Vec<String>>)
    ensures
        opt_strings_view(r) == nonempty_seq(strings_view(v@)),
{
    if v.len() == 0 {
        None
    } else {
        Some(v)
    }
}

fn opt_pairs(v: Vec<(String, String)>) -> (r: Option<Vec<(String, String)>>)
    ensures
        opt_pairs_view(r) == nonempty_seq(pairs_view(v@)),
{
    if v.len() == 0 {
        None
    } else {
        Some(v)
    }
}

/// No target option set.
pub fn empty_overrides() -> (r: ProbeTargetOverrides)
    ensures
        overrides_empty(r),
{
    ProbeTargetOverrides {
        transport_type: None,
        command: None,
        args: None,
        cwd: None,
        env: None,
        url: None,
        headers: None,
        timeout_ms: None,
        retries: None,
        retry_delay_ms: None,
        expect_auth_required: None,
        log_level: None,
        log_format: None,
        trace: None,
        trace_limit: None,
        trace_max_bytes: None,
        descriptor_profile: None,
        catalog_profile: None,
        catalog_contract: None,
        catalog_contract_path: None,
    }
}

/// Parse `probe run` arguments.
#[verifier::loop_isolation(false)]
#[verifier::spinoff_prover]
pub fn parse_args(argv: &[String]) -> (r: Result<ParsedArgs, ParseError>)
    requires
        argv@.len() < usize::MAX,
    ensures
        match parse_run(strings_view(argv@)) {
            Ok(m) => r is Ok && parsed_matches(r->Ok_0, m),
            Err(e) => r is Err && failure_view(r->Err_0) == e,
        },
{
    let ghost sv = strings_view(argv@);
    if asks_help_exec(argv) {
        return Err(help_error());
    }
    let start: usize = if argv.len() > 0 && str_eq(argv[0].as_str(), "run") {
        1
    } else {
        0
    };
    let ghost args = if sv.len() > 0 && sv[0] == "run"@ {
        sv.drop_first()
    } else {
        sv
    };
    assert(args =~= sv.subrange(start as int, sv.len() as int));
    let mut st = ArgsState {
        transport: None,
        command: None,
        cmd_args: Vec::new(),
        url: None,
        headers: Vec::new(),
        pretty: false,
        out_path: None,
        include_raw: false,
        timeout_ms: None,
        retries: None,
        retry_delay_ms: None,
        expect_auth_required: None,
        config_path: None,
        profile: None,
        log_level: None,
        log_format: None,
        trace: None,
        trace_limit: None,
        trace_max_bytes: None,
        descriptor_profile: None,
        catalog_profile: None,
        catalog_contract_path: None,
        verbosity: None,
        cwd: None,
        env: Vec::new(),
        use_auth: None,
        access_token_path: None,
        script_path: None,
        snapshot_write: false,
    };
    proof {
        assert(strings_view(st.cmd_args@) =~= Seq::<Seq<char>>::empty());
        assert(pairs_view(st.headers@) =~= Seq::<(Seq<char>, Seq<char>)>::empty());
        assert(pairs_view(st.env@) =~= Seq::<(Seq<char>, Seq<char>)>::empty());
        assert(st.model() == empty_args());
    }
    let mut i: usize = start;
    while i < argv.len()
        invariant
            start <= i <= argv@.len() + 1,
            st.wf(),
            scan_run(args, 0, empty_args()) == scan_run(args, i - start, st.model()),
        decreases argv@.len() + 1 - i,
    {
        let next: Option<&str> = if i + 1 < argv.len() {
            Some(argv[i + 1].as_str())
        } else {
            None
        };
        proof {
            assert(args[i - start] == argv@[i as int]@);
            if i + 1 < argv@.len() {
                assert(args[i - start + 1] == argv@[i + 1]@);
            }
        }
        match apply_run_option_exec(&mut st, argv[i].as_str(), next) {
            Err(e) => {
                return Err(e);
            },
            Ok(took) => {
                if took {
                    i = i + 2;
                } else {
                    i = i + 1;
                }
            },
        }
    }
    let m = st;
    proof {
        assert(scan_run(args, i - start, m.model()) == Ok::<ArgsModel, ParseFailure>(m.model()));
    }
    if m.script_path.is_some() {
        let conflicts = m.transport.is_some() || m.command.is_some() || m.url.is_some()
            || m.cmd_args.len() > 0 || m.headers.len() > 0 || m.config_path.is_some()
            || m.profile.is_some() || m.use_auth.is_some() || m.access_token_path.is_some()
            || m.trace.is_some() || m.trace_limit.is_some() || m.trace_max_bytes.is_some()
            || m.descriptor_profile.is_some() || m.catalog_profile.is_some()
            || m.catalog_contract_path.is_some() || m.verbosity.is_some() || m.cwd.is_some()
            || m.env.len() > 0;
        if conflicts {
            return Err(
                fail_lit(
                    "Do not mix --script with transport/command/url/header/cwd/env/config/profile/auth/trace/descriptor/catalog/contract/verbosity options.",
                ),
            );
        }
        return Ok(
            ParsedArgs {
                overrides: empty_overrides(),
                pretty: m.pretty,
                out_path: m.out_path,
                include_raw: m.include_raw,
                verbosity: m.verbosity,
                config_path: m.config_path,
                profile: m.profile,
                use_auth: m.use_auth,
                access_token_path: m.access_token_path,
                script_path: m.script_path,
                snapshot_write: m.snapshot_write,
            },
        );
    }
    if m.transport.is_none() && m.config_path.is_none() {
        return Err(fail_lit("Missing --transport (or --config)"));
    }
    let overrides = ProbeTargetOverrides {
        transport_type: m.transport,
        command: m.command,
        args: opt_vec(m.cmd_args),
        cwd: m.cwd,
        env: opt_pairs(m.env),
        url: m.url,
        headers: opt_pairs(m.headers),
        timeout_ms: m.timeout_ms,
        retries: m.retries,
        retry_delay_ms: m.retry_delay_ms,
        expect_auth_required: m.expect_auth_required,
        log_level: m.log_level,
        log_format: m.log_format,
        trace: m.trace,
        trace_limit: m.trace_limit,
        trace_max_bytes: m.trace_max_bytes,
        descriptor_profile: m.descriptor_profile,
        catalog_profile: m.catalog_profile,
        catalog_contract: None,
        catalog_contract_path: m.catalog_contract_path,
    };
    Ok(
        ParsedArgs {
            overrides,
            pretty: m.pretty,
            out_path: m.out_path,
            include_raw: m.include_raw,
            verbosity: m.verbosity,
            config_path: m.config_path,
            profile: m.profile,
            use_auth: m.use_auth,
            access_token_path: m.access_token_path,
            script_path: m.script_path,
            snapshot_write: m.snapshot_write,
        },
    )
}


/// Parsed `probe auth` arguments.
pub struct AuthArgs {
    pub server_url: String,
    pub scope: Option<String>,
    pub client_id: Option<String>,
    pub client_secret: Option<String>,
    pub allow_dcr: bool,
    pub expect_registration_endpoint: bool,
    pub redirect_host: String,
    pub redirect_port: u16,
    pub open_browser: bool,
}

/// `probe auth` arguments as plain values while they are scanned.
pub struct AuthModel {
    pub server_url: Option<Seq<char>>,
    pub scope: Option<Seq<char>>,
    pub client_id: Option<Seq<char>>,
    pub client_secret: Option<Seq<char>>,
    pub allow_dcr: bool,
    pub expect_registration_endpoint: bool,
    pub redirect_host: Seq<char>,
    pub redirect_port: u16,
    pub open_browser: bool,
}

/// The defaults of `probe auth`.
pub open spec fn auth_defaults() -> AuthModel {
    AuthModel {
        server_url: None,
        scope: None,
        client_id: None,
        client_secret: None,
        allow_dcr: false,
        expect_registration_endpoint: false,
        redirect_host: "127.0.0.1"@,
        redirect_port: 3333,
        open_browser: false,
    }
}

/// The effect of one `auth` option.
pub open spec fn apply_auth_option(m: AuthModel, opt: Seq<char>, next: Option<Seq<char>>) -> Result<
    (AuthModel, bool),
    ParseFailure,
> {
    if opt == "--server"@ {
        match next {
            None => Err(missing_value(opt)),
            Some(v) => Ok((AuthModel { server_url: Some(v), ..m }, true)),
        }
    } else if opt == "--scope"@ {
        match next {
            None => Err(missing_value(opt)),
            Some(v) => Ok((AuthModel { scope: Some(v), ..m }, true)),
        }
    } else if opt == "--client-id"@ {
        match next {
            None => Err(missing_value(opt)),
            Some(v) => Ok((AuthModel { client_id: Some(v), ..m }, true)),
        }
    } else if opt == "--client-secret"@ {
        match next {
            None => Err(missing_value(opt)),
            Some(v) => Ok((AuthModel { client_secret: Some(v), ..m }, true)),
        }
    } else if opt == "--allow-dcr"@ {
        Ok((AuthModel { allow_dcr: true, ..m }, false))
    } else if opt == "--expect-registration-endpoint"@ {
        Ok((AuthModel { expect_registration_endpoint: true, ..m }, false))
    } else if opt == "--redirect-host"@ {
        match next {
            None => Err(missing_value(opt)),
            Some(v) => Ok((AuthModel { redirect_host: v, ..m }, true)),
        }
    } else if opt == "--redirect-port"@ {
        match next {
            None => Err(missing_value(opt)),
            Some(v) => match unsigned_at_most(v, u16::MAX as nat) {
                Some(n) => Ok((AuthModel { redirect_port: n as u16, ..m }, true)),
                None => Err(failure("Invalid --redirect-port value"@)),
            },
        }
    } else if opt == "--open"@ {
        Ok((AuthModel { open_browser: true, ..m }, false))
    } else {
        Err(failure("Unknown auth argument: "@ + opt))
    }
}

/// Scan the `auth` options from position `i`.
pub open spec fn scan_auth(args: Seq<Seq<char>>, i: int, m: AuthModel) -> Result<AuthModel, ParseFailure>
    decreases args.len() + 1 - i,
{
    if i < 0 || i >= args.len() {
        Ok(m)
    } else {
        match apply_auth_option(m, args[i], next_arg(args, i)) {
            Err(e) => Err(e),
            Ok((m2, took)) => scan_auth(args, i + if took { 2int } else { 1int }, m2),
        }
    }
}

/// The outcome of parsing `auth` arguments.
pub open spec fn parse_auth(argv: Seq<Seq<char>>) -> Result<AuthModel, ParseFailure> {
    if asks_help(argv) {
        Err(help_failure())
    } else {
        match scan_auth(argv, 0, auth_defaults()) {
            Err(e) => Err(e),
            Ok(m) => if m.server_url is None {
                Err(failure("Missing --server"@))
            } else {
                Ok(m)
            },
        }
    }
}

/// The parsed auth arguments report the scanned ones.
pub open spec fn auth_matches(a: AuthArgs, m: AuthModel) -> bool {
    &&& Some(a.server_url@) == m.server_url
    &&& opt_view(a.scope) == m.scope
    &&& opt_view(a.client_id) == m.client_id
    &&& opt_view(a.client_secret) == m.client_secret
    &&& a.allow_dcr == m.allow_dcr
    &&& a.expect_registration_endpoint == m.expect_registration_endpoint
    &&& a.redirect_host@ == m.redirect_host
    &&& a.redirect_port == m.redirect_port
    &&& a.open_browser == m.open_browser
}

struct AuthState {
    server_url: Option<String>,
    scope: Option<String>,
    client_id: Option<String>,
    client_secret: Option<String>,
    allow_dcr: bool,
    expect_registration_endpoint: bool,
    redirect_host: String,
    redirect_port: u16,
    open_browser: bool,
}

impl AuthState {
    spec fn model(&self) -> AuthModel {
        AuthModel {
            server_url: opt_view(self.server_url),
            scope: opt_view(self.scope),
            client_id: opt_view(self.client_id),
            client_secret: opt_view(self.client_secret),
            allow_dcr: self.allow_dcr,
            expect_registration_endpoint: self.expect_registration_endpoint,
            redirect_host: self.redirect_host@,
            redirect_port: self.redirect_port,
            open_browser: self.open_browser,
        }
    }
}

fn apply_auth_option_exec(st: &mut AuthState, opt: &str, next: Option<&str>) -> (r: Result<
    bool,
    ParseError,
>)
    ensures
        match apply_auth_option(
            old(st).model(),
            opt@,
            match next {
                Some(v) => Some(v@),
                None => None,
            },
        ) {
            Ok((m2, took)) => r == Ok::<bool, ParseError>(took) && final(st).model() == m2,
            Err(e) => r is Err && failure_view(r->Err_0) == e,
        },
{
    if str_eq(opt, "--server") {
        match next {
            None => Err(missing(opt)),
            Some(v) => {
                st.server_url = Some(String::from_str(v));
                Ok(true)
            },
        }
    } else if str_eq(opt, "--scope") {
        match next {
            None => Err(missing(opt)),
            Some(v) => {
                st.scope = Some(String::from_str(v));
                Ok(true)
            },
        }
    } else if str_eq(opt, "--client-id") {
        match next {
            None => Err(missing(opt)),
            Some(v) => {
                st.client_id = Some(String::from_str(v));
                Ok(true)
            },
        }
    } else if str_eq(opt, "--client-secret") {
        match next {
            None => Err(missing(opt)),
            Some(v) => {
                st.client_secret = Some(String::from_str(v));
                Ok(true)
            },
        }
    } else if str_eq(opt, "--allow-dcr") {
        st.allow_dcr = true;
        Ok(false)
    } else if str_eq(opt, "--expect-registration-endpoint") {
        st.expect_registration_endpoint = true;
        Ok(false)
    } else if str_eq(opt, "--redirect-host") {
        match next {
            None => Err(missing(opt)),
            Some(v) => {
                st.redirect_host = String::from_str(v);
                Ok(true)
            },
        }
    } else if str_eq(opt, "--redirect-port") {
        match next {
            None => Err(missing(opt)),
            Some(v) => match parse_unsigned(v, u16::MAX as u64) {
                Some(n) => {
                    st.redirect_port = n as u16;
                    Ok(true)
                },
                None => Err(fail_lit("Invalid --redirect-port value")),
            },
        }
    } else if str_eq(opt, "--open") {
        st.open_browser = true;
        Ok(false)
    } else {
        let mut m = String::from_str("Unknown auth argument: ");
        m.append(opt);
        Err(fail(m))
    }
}

/// Parse `probe auth` arguments.
#[verifier::loop_isolation(false)]
pub fn parse_auth_args(argv: &[String]) -> (r: Result<AuthArgs, ParseError>)
    requires
        argv@.len() < usize::MAX,
    ensures
        match parse_auth(strings_view(argv@)) {
            Ok(m) => r is Ok && auth_matches(r->Ok_0, m),
            Err(e) => r is Err && failure_view(r->Err_0) == e,
        },
{
    let ghost sv = strings_view(argv@);
    if asks_help_exec(argv) {
        return Err(help_error());
    }
    let mut st = AuthState {
        server_url: None,
        scope: None,
        client_id: None,
        client_secret: None,
        allow_dcr: false,
        expect_registration_endpoint: false,
        redirect_host: String::from_str("127.0.0.1"),
        redirect_port: 3333,
        open_browser: false,
    };
    let mut i: usize = 0;
    while i < argv.len()
        invariant
            i <= argv@.len() + 1,
            scan_auth(sv, 0, auth_defaults()) == scan_auth(sv, i as int, st.model()),
        decreases argv@.len() + 1 - i,
    {
        let next: Option<&str> = if i + 1 < argv.len() {
            Some(argv[i + 1].as_str())
        } else {
            None
        };
        proof {
            assert(sv[i as int] == argv@[i as int]@);
            if i + 1 < argv@.len() {
                assert(sv[i + 1] == argv@[i + 1]@);
            }
        }
        match apply_auth_option_exec(&mut st, argv[i].as_str(), next) {
            Err(e) => {
                return Err(e);
            },
            Ok(took) => {
                if took {
                    i = i + 2;
                } else {
                    i = i + 1;
                }
            },
        }
    }
    match st.server_url {
        None => Err(fail_lit("Missing --server")),
        Some(server_url) => Ok(
            AuthArgs {
                server_url,
                scope: st.scope,
                client_id: st.client_id,
                client_secret: st.client_secret,
                allow_dcr: st.allow_dcr,
                expect_registration_endpoint: st.expect_registration_endpoint,
                redirect_host: st.redirect_host,
                redirect_port: st.redirect_port,
                open_browser: st.open_browser,
            },
        ),
    }
}

/// Whether a `run` option takes the argument after it.
pub open spec fn consumes_value(o: Seq<char>) -> bool {
    o == "--transport"@ || o == "--command"@ || o == "--arg"@ || o == "--url"@ || o
        == "--header"@ || o == "--out"@ || o == "--timeout-ms"@ || o == "--retries"@ || o
        == "--retry-delay-ms"@ || o == "--access-token-path"@ || o == "--config"@ || o
        == "--profile"@ || o == "--log-level"@ || o == "--log-format"@ || o == "--trace-limit"@
        || o == "--trace-max-bytes"@ || o == "--descriptor-profile"@ || o == "--catalog-profile"@
        || o == "--catalog-contract"@ || o == "--verbosity"@ || o == "--cwd"@ || o == "--env"@
        || o == "--script"@
}

/// Whether a `run` option takes the argument after it.
pub fn option_consumes_value(option: &str) -> (r: bool)
    ensures
        r == consumes_value(option@),
{
    str_eq(option, "--transport") || str_eq(option, "--command") || str_eq(option, "--arg")
        || str_eq(option, "--url") || str_eq(option, "--header") || str_eq(option, "--out")
        || str_eq(option, "--timeout-ms") || str_eq(option, "--retries") || str_eq(
        option,
        "--retry-delay-ms",
    ) || str_eq(option, "--access-token-path") || str_eq(option, "--config") || str_eq(
        option,
        "--profile",
    ) || str_eq(option, "--log-level") || str_eq(option, "--log-format") || str_eq(
        option,
        "--trace-limit",
    ) || str_eq(option, "--trace-max-bytes") || str_eq(option, "--descriptor-profile")
        || str_eq(option, "--catalog-profile") || str_eq(option, "--catalog-contract") || str_eq(
        option,
        "--verbosity",
    ) || str_eq(option, "--cwd") || str_eq(option, "--env") || str_eq(option, "--script")
}


/// Parsed `probe http-smoke` arguments.
pub struct HttpSmokeArgs {
    pub url: String,
    pub pretty: bool,
    pub out_path: Option<String>,
    pub timeout_ms: Option<u64>,
    pub expect_auth_required: Option<bool>,
    pub expect_registration_endpoint: Option<bool>,
}

/// `probe http-smoke` arguments as plain values while they are scanned.
pub struct SmokeModel {
    pub url: Option<Seq<char>>,
    pub pretty: bool,
    pub out_path: Option<Seq<char>>,
    pub timeout_ms: Option<u64>,
    pub expect_auth_required: Option<bool>,
    pub expect_registration_endpoint: Option<bool>,
}

/// The effect of one `http-smoke` option.
pub open spec fn apply_smoke_option(m: SmokeModel, opt: Seq<char>, next: Option<Seq<char>>) -> Result<
    (SmokeModel, bool),
    ParseFailure,
> {
    if opt == "--url"@ {
        match next {
            None => Err(missing_value(opt)),
            Some(v) => Ok((SmokeModel { url: Some(v), ..m }, true)),
        }
    } else if opt == "--pretty"@ {
        Ok((SmokeModel { pretty: true, ..m }, false))
    } else if opt == "--json"@ {
        Ok((SmokeModel { pretty: false, ..m }, false))
    } else if opt == "--out"@ {
        match next {
            None => Err(missing_value(opt)),
            Some(v) => Ok((SmokeModel { out_path: Some(v), ..m }, true)),
        }
    } else if opt == "--timeout-ms"@ {
        match next {
            None => Err(missing_value(opt)),
            Some(v) => match unsigned_at_most(v, u64::MAX as nat) {
                Some(n) => Ok((SmokeModel { timeout_ms: Some(n as u64), ..m }, true)),
                None => Err(failure("Invalid --timeout-ms value"@)),
            },
        }
    } else if opt == "--expect-auth-required"@ {
        Ok((SmokeModel { expect_auth_required: Some(true), ..m }, false))
    } else if opt == "--expect-registration-endpoint"@ {
        Ok((SmokeModel { expect_registration_endpoint: Some(true), ..m }, false))
    } else {
        Err(failure("Unknown http-smoke argument: "@ + opt))
    }
}

/// Scan the `http-smoke` options from position `i`.
pub open spec fn scan_smoke(args: Seq<Seq<char>>, i: int, m: SmokeModel) -> Result<SmokeModel, ParseFailure>
    decreases args.len() + 1 - i,
{
    if i < 0 || i >= args.len() {
        Ok(m)
    } else {
        match apply_smoke_option(m, args[i], next_arg(args, i)) {
            Err(e) => Err(e),
            Ok((m2, took)) => scan_smoke(args, i + if took { 2int } else { 1int }, m2),
        }
    }
}

/// The outcome of parsing `http-smoke` arguments.
pub open spec fn parse_smoke(argv: Seq<Seq<char>>) -> Result<SmokeModel, ParseFailure> {
    if asks_help(argv) {
        Err(help_failure())
    } else {
        match scan_smoke(
            argv,
            0,
            SmokeModel {
                url: None,
                pretty: false,
                out_path: None,
                timeout_ms: None,
                expect_auth_required: None,
                expect_registration_endpoint: None,
            },
        ) {
            Err(e) => Err(e),
            Ok(m) => if m.url is None {
                Err(failure("Missing --url"@))
            } else {
                Ok(m)
            },
        }
    }
}

struct SmokeState {
    url: Option<String>,
    pretty: bool,
    out_path: Option<String>,
    timeout_ms: Option<u64>,
    expect_auth_required: Option<bool>,
    expect_registration_endpoint: Option<bool>,
}

impl SmokeState {
    spec fn model(&self) -> SmokeModel {
        SmokeModel {
            url: opt_view(self.url),
            pretty: self.pretty,
            out_path: opt_view(self.out_path),
            timeout_ms: self.timeout_ms,
            expect_auth_required: self.expect_auth_required,
            expect_registration_endpoint: self.expect_registration_endpoint,
        }
    }
}

fn apply_smoke_option_exec(st: &mut SmokeState, opt: &str, next: Option<&str>) -> (r: Result<
    bool,
    ParseError,
>)
    ensures
        match apply_smoke_option(
            old(st).model(),
            opt@,
            match next {
                Some(v) => Some(v@),
                None => None,
            },
        ) {
            Ok((m2, took)) => r == Ok::<bool, ParseError>(took) && final(st).model() == m2,
            Err(e) => r is Err && failure_view(r->Err_0) == e,
        },
{
    if str_eq(opt, "--url") {
        match next {
            None => Err(missing(opt)),
            Some(v) => {
                st.url = Some(String::from_str(v));
                Ok(true)
            },
        }
    } else if str_eq(opt, "--pretty") {
        st.pretty = true;
        Ok(false)
    } else if str_eq(opt, "--json") {
        st.pretty = false;
        Ok(false)
    } else if str_eq(opt, "--out") {
        match next {
            None => Err(missing(opt)),
            Some(v) => {
                st.out_path = Some(String::from_str(v));
                Ok(true)
            },
        }
    } else if str_eq(opt, "--timeout-ms") {
        match next {
            None => Err(missing(opt)),
            Some(v) => match parse_unsigned(v, u64::MAX) {
                Some(n) => {
                    st.timeout_ms = Some(n);
                    Ok(true)
                },
                None => Err(fail_lit("Invalid --timeout-ms value")),
            },
        }
    } else if str_eq(opt, "--expect-auth-required") {
        st.expect_auth_required = Some(true);
        Ok(false)
    } else if str_eq(opt, "--expect-registration-endpoint") {
        st.expect_registration_endpoint = Some(true);
        Ok(false)
    } else {
        let mut m = String::from_str("Unknown http-smoke argument: ");
        m.append(opt);
        Err(fail(m))
    }
}

/// Parse `probe http-smoke` arguments.
#[verifier::loop_isolation(false)]
pub fn parse_http_smoke_args(argv: &[String]) -> (r: Result<HttpSmokeArgs, ParseError>)
    requires
        argv@.len() < usize::MAX,
    ensures
        match parse_smoke(strings_view(argv@)) {
            Ok(m) => r is Ok && m.url == Some(r->Ok_0.url@) && m.pretty == r->Ok_0.pretty
                && m.out_path == opt_view(r->Ok_0.out_path) && m.timeout_ms == r->Ok_0.timeout_ms
                && m.expect_auth_required == r->Ok_0.expect_auth_required
                && m.expect_registration_endpoint == r->Ok_0.expect_registration_endpoint,
            Err(e) => r is Err && failure_view(r->Err_0) == e,
        },
{
    let ghost sv = strings_view(argv@);
    if asks_help_exec(argv) {
        return Err(help_error());
    }
    let mut st = SmokeState {
        url: None,
        pretty: false,
        out_path: None,
        timeout_ms: None,
        expect_auth_required: None,
        expect_registration_endpoint: None,
    };
    let mut i: usize = 0;
    while i < argv.len()
        invariant
            i <= argv@.len() + 1,
            parse_smoke(sv) == (match scan_smoke(sv, i as int, st.model()) {
                Err(e) => Err(e),
                Ok(m) => if m.url is None {
                    Err(failure("Missing --url"@))
                } else {
                    Ok(m)
                },
            }),
        decreases argv@.len() + 1 - i,
    {
        let next: Option<&str> = if i + 1 < argv.len() {
            Some(argv[i + 1].as_str())
        } else {
            None
        };
        proof {
            assert(sv[i as int] == argv@[i as int]@);
            if i + 1 < argv@.len() {
                assert(sv[i + 1] == argv@[i + 1]@);
            }
        }
        match apply_smoke_option_exec(&mut st, argv[i].as_str(), next) {
            Err(e) => {
                return Err(e);
            },
            Ok(took) => {
                if took {
                    i = i + 2;
                } else {
                    i = i + 1;
                }
            },
        }
    }
    match st.url {
        None => Err(fail_lit("Missing --url")),
        Some(url) => Ok(
            HttpSmokeArgs {
                url,
                pretty: st.pretty,
                out_path: st.out_path,
                timeout_ms: st.timeout_ms,
                expect_auth_required: st.expect_auth_required,
                expect_registration_endpoint: st.expect_registration_endpoint,
            },
        ),
    }
}

} // verus!

verus! {

// ---------------------------------------------------------------------------
// `prompt-render` arguments.
// ---------------------------------------------------------------------------

/// Where a prompt argument comes from, before its JSON is read: a
/// `key=json` pair (key and value text, both trimmed), or an
/// `--arguments-json` object text.
pub enum PromptArgumentSource {
    Pair(String, String),
    Json(String),
}

/// A prompt argument source as plain values.
pub enum ArgSource {
    Pair(Seq<char>, Seq<char>),
    Object(Seq<char>),
}

pub open spec fn source_view(s: PromptArgumentSource) -> ArgSource {
    match s {
        PromptArgumentSource::Pair(k, v) => ArgSource::Pair(k@, v@),
        PromptArgumentSource::Json(t) => ArgSource::Object(t@),
    }
}

pub open spec fn sources_view(s: Seq<PromptArgumentSource>) -> Seq<ArgSource> {
    s.map_values(|x: PromptArgumentSource| source_view(x))
}

/// A `key=json` prompt argument split into its trimmed key and trimmed
/// value text.
pub open spec fn prompt_argument(raw: Seq<char>) -> Result<(Seq<char>, Seq<char>), ParseFailure> {
    match split_at_first(raw, '=') {
        None => Err(failure("Prompt argument must be in key=json form"@)),
        Some((k, v)) => if k.len() == 0 || trim(k).len() == 0 {
            Err(failure("Prompt argument key cannot be empty"@))
        } else {
            Ok((trim(k), trim(v)))
        },
    }
}

/// Split a `key=json` prompt argument into its key and value text.
pub fn parse_prompt_argument(raw: &str) -> (r: Result<(String, String), ParseError>)
    ensures
        match prompt_argument(raw@) {
            Ok((k, v)) => r matches Ok((rk, rv)) && rk@ == k && rv@ == v,
            Err(e) => r is Err && failure_view(r->Err_0) == e,
        },
{
    match split_first(raw, '=') {
        None => Err(fail_lit("Prompt argument must be in key=json form")),
        Some((k, v)) => {
            let key = crate::text::trim_str(k.as_str());
            if crate::text::chars_of(k.as_str()).len() == 0 || crate::text::chars_of(key.as_str()).len() == 0 {
                Err(fail_lit("Prompt argument key cannot be empty"))
            } else {
                Ok((key, crate::text::trim_str(v.as_str())))
            }
        },
    }
}

/// A prompt argument's value: its JSON when the text reads as JSON, else
/// the text as a string.
pub open spec fn argument_value(text: Seq<char>, parsed: Result<crate::json::Json, Seq<char>>) -> crate::json::Json {
    match parsed {
        Ok(v) => v,
        Err(_) => crate::json::Json::Str(text),
    }
}

/// The value of a `key=json` argument, given what reading its text as JSON
/// gave.
pub fn prompt_argument_value(text: &str, parsed: Result<crate::json::JsonValue, String>) -> (r: crate::json::JsonValue)
    ensures
        r@ == argument_value(text@, parsed_view(parsed)),
{
    match parsed {
        Ok(v) => v,
        Err(_) => crate::json::JsonValue::String(String::from_str(text)),
    }
}

/// A JSON reading as plain values: the document, or the error text.
pub open spec fn parsed_view(p: Result<crate::json::JsonValue, String>) -> Result<crate::json::Json, Seq<char>> {
    match p {
        Ok(v) => Ok(v@),
        Err(e) => Err(e@),
    }
}

pub open spec fn parsed_views(p: Seq<Result<crate::json::JsonValue, String>>) -> Seq<Result<crate::json::Json, Seq<char>>> {
    p.map_values(|x: Result<crate::json::JsonValue, String>| parsed_view(x))
}

/// `prompt-render` arguments as plain values while they are scanned; the
/// expectation is `Some(None)` for `--expect-error` and `Some(Some(t))`
/// for `--expect-error-contains t`.
pub struct PromptModel {
    pub prompt_name: Option<Seq<char>>,
    pub sources: Seq<ArgSource>,
    pub expect: Option<Option<Seq<char>>>,
    pub target_args: Seq<Seq<char>>,
}

/// The effect of one `prompt-render` option; options it does not know
/// are passed on to the target parser, with their value when they take one.
#[verifier::opaque]
pub open spec fn apply_prompt_option(m: PromptModel, opt: Seq<char>, next: Option<Seq<char>>) -> Result<
    (PromptModel, bool),
    ParseFailure,
> {
    if opt == "--prompt"@ || opt == "--prompt-name"@ {
        match next {
            None => Err(failure("Missing value for --prompt"@)),
            Some(v) => Ok((PromptModel { prompt_name: Some(v), ..m }, true)),
        }
    } else if opt == "--prompt-arg"@ || opt == "--argument"@ {
        match next {
            None => Err(failure("Missing value for --prompt-arg"@)),
            Some(v) => match prompt_argument(v) {
                Err(e) => Err(e),
                Ok((k, t)) => Ok((PromptModel { sources: m.sources.push(ArgSource::Pair(k, t)), ..m }, true)),
            },
        }
    } else if opt == "--arguments-json"@ {
        match next {
            None => Err(failure("Missing value for --arguments-json"@)),
            Some(v) => Ok((PromptModel { sources: m.sources.push(ArgSource::Object(v)), ..m }, true)),
        }
    } else if opt == "--expect-error"@ {
        Ok((PromptModel { expect: Some(None), ..m }, false))
    } else if opt == "--expect-error-contains"@ {
        match next {
            None => Err(failure("Missing value for --expect-error-contains"@)),
            Some(v) => Ok((PromptModel { expect: Some(Some(v)), ..m }, true)),
        }
    } else if consumes_value(opt) {
        match next {
            None => Err(missing_value(opt)),
            Some(v) => Ok((PromptModel { target_args: m.target_args.push(opt).push(v), ..m }, true)),
        }
    } else {
        Ok((PromptModel { target_args: m.target_args.push(opt), ..m }, false))
    }
}

/// Scan `prompt-render` options from position `i`: the arguments scanned
/// up to the end or to the first failure, and that failure.
pub open spec fn scan_prompt(args: Seq<Seq<char>>, i: int, m: PromptModel) -> (PromptModel, Option<ParseFailure>)
    decreases args.len() + 1 - i,
{
    if i < 0 || i >= args.len() {
        (m, None)
    } else {
        match apply_prompt_option(m, args[i], next_arg(args, i)) {
            Err(e) => (m, Some(e)),
            Ok((m2, took)) => scan_prompt(args, i + if took { 2int } else { 1int }, m2),
        }
    }
}

pub open spec fn prompt_start() -> PromptModel {
    PromptModel { prompt_name: None, sources: Seq::empty(), expect: None, target_args: Seq::empty() }
}

/// What scanning `prompt-render` arguments gives: the argument sources
/// read before any failure, and the prompt name, target and expectation,
/// or the failure.
pub open spec fn prompt_scan(argv: Seq<Seq<char>>) -> (
    Seq<ArgSource>,
    Result<(Seq<char>, ArgsModel, Option<Option<Seq<char>>>), ParseFailure>,
) {
    if asks_help(argv) {
        (Seq::empty(), Err(help_failure()))
    } else {
        let (m, err) = scan_prompt(argv, 0, prompt_start());
        (
            m.sources,
            match err {
                Some(e) => Err(e),
                None => match m.prompt_name {
                    None => Err(failure("Missing --prompt"@)),
                    Some(name) => match parse_run(m.target_args) {
                        Err(e) => Err(e),
                        Ok(t) => if t.script_path is Some {
                            Err(failure("prompt-render cannot be combined with --script"@))
                        } else {
                            Ok((name, t, m.expect))
                        },
                    },
                },
            },
        )
    }
}

/// Parsed `prompt-render` arguments, apart from the prompt arguments.
pub struct PromptRenderArgs {
    pub target: ParsedArgs,
    pub prompt_name: String,
    pub expect_error: Option<crate::probe::ExpectError>,
}

/// The outcome of scanning `prompt-render` arguments: the argument sources
/// read before any failure (whose JSON the caller reads, in order, before
/// it reports the outcome), and the rest of the arguments or the failure.
pub struct PromptRenderScan {
    pub sources: Vec<PromptArgumentSource>,
    pub outcome: Result<PromptRenderArgs, ParseError>,
}

pub open spec fn expect_view(e: Option<crate::probe::ExpectError>) -> Option<Option<Seq<char>>> {
    match e {
        Some(crate::probe::ExpectError::Bool(true)) => Some(None),
        Some(crate::probe::ExpectError::String(t)) => Some(Some(t@)),
        _ => None,
    }
}

struct PromptState {
    prompt_name: Option<String>,
    sources: Vec<PromptArgumentSource>,
    expect: Option<crate::probe::ExpectError>,
    target_args: Vec<String>,
}

impl PromptState {
    spec fn model(&self) -> PromptModel {
        PromptModel {
            prompt_name: opt_view(self.prompt_name),
            sources: sources_view(self.sources@),
            expect: expect_view(self.expect),
            target_args: strings_view(self.target_args@),
        }
    }

    spec fn wf(&self) -> bool {
        !(self.expect matches Some(crate::probe::ExpectError::Bool(false)))
    }
}

#[verifier::rlimit(40)]
fn apply_prompt_option_exec(st: &mut PromptState, opt: &str, next: Option<&str>) -> (r: Result<bool, ParseError>)
    requires
        old(st).wf(),
    ensures
        final(st).wf(),
        final(st).target_args@.len() <= old(st).target_args@.len() + (if r matches Ok(true) {
            2int
        } else {
            1int
        }),
        r matches Ok(true) ==> next is Some,
        match apply_prompt_option(
            old(st).model(),
            opt@,
            match next {
                Some(v) => Some(v@),
                None => None,
            },
        ) {
            Ok((m2, took)) => r == Ok::<bool, ParseError>(took) && final(st).model() == m2,
            Err(e) => r is Err && failure_view(r->Err_0) == e && final(st).model() == old(st).model(),
        },
{
    reveal(apply_prompt_option);
    if str_eq(opt, "--prompt") || str_eq(opt, "--prompt-name") {
        match next {
            None => Err(fail_lit("Missing value for --prompt")),
            Some(v) => {
                st.prompt_name = Some(String::from_str(v));
                Ok(true)
            },
        }
    } else if str_eq(opt, "--prompt-arg") || str_eq(opt, "--argument") {
        match next {
            None => Err(fail_lit("Missing value for --prompt-arg")),
            Some(v) => match parse_prompt_argument(v) {
                Err(e) => Err(e),
                Ok((k, t)) => {
                    let ghost before = st.sources@;
                    st.sources.push(PromptArgumentSource::Pair(k, t));
                    proof {
                        assert(sources_view(st.sources@) =~= sources_view(before).push(ArgSource::Pair(k@, t@)));
                    }
                    Ok(true)
                },
            },
        }
    } else if str_eq(opt, "--arguments-json") {
        match next {
            None => Err(fail_lit("Missing value for --arguments-json")),
            Some(v) => {
                let ghost before = st.sources@;
                st.sources.push(PromptArgumentSource::Json(String::from_str(v)));
                proof {
                    assert(sources_view(st.sources@) =~= sources_view(before).push(ArgSource::Object(v@)));
                }
                Ok(true)
            },
        }
    } else if str_eq(opt, "--expect-error") {
        st.expect = Some(crate::probe::ExpectError::Bool(true));
        Ok(false)
    } else if str_eq(opt, "--expect-error-contains") {
        match next {
            None => Err(fail_lit("Missing value for --expect-error-contains")),
            Some(v) => {
                st.expect = Some(crate::probe::ExpectError::String(String::from_str(v)));
                Ok(true)
            },
        }
    } else if option_consumes_value(opt) {
        match next {
            None => Err(missing(opt)),
            Some(v) => {
                let ghost before = st.target_args@;
                st.target_args.push(String::from_str(opt));
                st.target_args.push(String::from_str(v));
                proof {
                    assert(strings_view(st.target_args@) =~= strings_view(before).push(opt@).push(v@));
                }
                Ok(true)
            },
        }
    } else {
        let ghost before = st.target_args@;
        st.target_args.push(String::from_str(opt));
        proof {
            assert(strings_view(st.target_args@) =~= strings_view(before).push(opt@));
        }
        Ok(false)
    }
}

/// Scan `prompt-render` arguments.
#[verifier::loop_isolation(false)]
#[verifier::spinoff_prover]
#[verifier::rlimit(40)]
pub fn parse_prompt_render_args(argv: &[String]) -> (r: PromptRenderScan)
    requires
        argv@.len() < usize::MAX,
    ensures
        sources_view(r.sources@) == prompt_scan(strings_view(argv@)).0,
        match prompt_scan(strings_view(argv@)).1 {
            Ok((name, t, e)) => r.outcome is Ok && r.outcome->Ok_0.prompt_name@ == name && parsed_matches(
                r.outcome->Ok_0.target,
                t,
            ) && expect_view(r.outcome->Ok_0.expect_error) == e,
            Err(f) => r.outcome is Err && failure_view(r.outcome->Err_0) == f,
        },
{
    let ghost sv = strings_view(argv@);
    if asks_help_exec(argv) {
        let sources: Vec<PromptArgumentSource> = Vec::new();
        assert(sources_view(sources@) =~= Seq::<ArgSource>::empty());
        return PromptRenderScan { sources, outcome: Err(help_error()) };
    }
    let mut st = PromptState { prompt_name: None, sources: Vec::new(), expect: None, target_args: Vec::new() };
    proof {
        assert(sources_view(st.sources@) =~= Seq::<ArgSource>::empty());
        assert(strings_view(st.target_args@) =~= Seq::<Seq<char>>::empty());
        assert(st.model() == prompt_start());
    }
    let mut i: usize = 0;
    while i < argv.len()
        invariant
            i <= argv@.len() + 1,
            st.wf(),
            st.target_args@.len() <= i,
            st.target_args@.len() <= argv@.len(),
            scan_prompt(sv, 0, prompt_start()) == scan_prompt(sv, i as int, st.model()),
        decreases argv@.len() + 1 - i,
    {
        let next: Option<&str> = if i + 1 < argv.len() {
            Some(argv[i + 1].as_str())
        } else {
            None
        };
        proof {
            assert(sv[i as int] == argv@[i as int]@);
            if i + 1 < argv@.len() {
                assert(sv[i + 1] == argv@[i + 1]@);
            }
        }
        match apply_prompt_option_exec(&mut st, argv[i].as_str(), next) {
            Err(e) => {
                return PromptRenderScan { sources: st.sources, outcome: Err(e) };
            },
            Ok(took) => {
                if took {
                    i = i + 2;
                } else {
                    i = i + 1;
                }
            },
        }
    }
    let sources = st.sources;
    let name = match st.prompt_name {
        None => {
            return PromptRenderScan { sources, outcome: Err(fail_lit("Missing --prompt")) };
        },
        Some(n) => n,
    };
    match parse_args(st.target_args.as_slice()) {
        Err(e) => PromptRenderScan { sources, outcome: Err(e) },
        Ok(target) => {
            if target.script_path.is_some() {
                PromptRenderScan {
                    sources,
                    outcome: Err(fail_lit("prompt-render cannot be combined with --script")),
                }
            } else {
                PromptRenderScan {
                    sources,
                    outcome: Ok(PromptRenderArgs { target, prompt_name: name, expect_error: st.expect }),
                }
            }
        },
    }
}

/// The prompt arguments from their sources, read in order with what
/// reading each one's text as JSON gave: pairs inserted one by one, JSON
/// objects merged member by member (a later value replacing an earlier one
/// under the same name), or the first failure.
pub open spec fn merge_prefix(
    srcs: Seq<ArgSource>,
    parsed: Seq<Result<crate::json::Json, Seq<char>>>,
    n: int,
) -> Result<Seq<(Seq<char>, crate::json::Json)>, ParseFailure>
    decreases n,
{
    if n <= 0 {
        Ok(Seq::empty())
    } else {
        match merge_prefix(srcs, parsed, n - 1) {
            Err(e) => Err(e),
            Ok(acc) => match srcs[n - 1] {
                ArgSource::Pair(k, t) => Ok(
                    crate::json::object_insert(acc, k, argument_value(t, parsed[n - 1])),
                ),
                ArgSource::Object(_) => match parsed[n - 1] {
                    Err(msg) => Err(failure("Invalid --arguments-json value: "@ + msg)),
                    Ok(crate::json::Json::Object(members)) => Ok(crate::json::object_insert_all(acc, members)),
                    Ok(_) => Err(failure("--arguments-json must be a JSON object"@)),
                },
            },
        }
    }
}

proof fn lemma_merge_err(srcs: Seq<ArgSource>, parsed: Seq<Result<crate::json::Json, Seq<char>>>, n: int, m: int)
    requires
        0 < n <= m,
        merge_prefix(srcs, parsed, n) is Err,
    ensures
        merge_prefix(srcs, parsed, m) == merge_prefix(srcs, parsed, n),
    decreases m - n,
{
    if m > n {
        lemma_merge_err(srcs, parsed, n, m - 1);
    }
}

/// Resolve the prompt arguments from their sources; `parsed` holds, for
/// each source, what reading its text (the value text of a pair, the
/// object text otherwise) as JSON gave. None when there are none.
pub fn resolve_prompt_arguments(
    sources: &[PromptArgumentSource],
    parsed: Vec<Result<crate::json::JsonValue, String>>,
) -> (r: Result<Option<Vec<(String, crate::json::JsonValue)>>, ParseError>)
    requires
        parsed@.len() == sources@.len(),
    ensures
        match merge_prefix(sources_view(sources@), parsed_views(parsed@), sources@.len() as int) {
            Ok(es) => r matches Ok(o) && match o {
                Some(v) => es.len() > 0 && crate::json::view_entries(v@) == es,
                None => es.len() == 0,
            },
            Err(e) => r is Err && failure_view(r->Err_0) == e,
        },
{
    let ghost srcs = sources_view(sources@);
    let ghost pv = parsed_views(parsed@);
    let mut acc: Vec<(String, crate::json::JsonValue)> = Vec::new();
    proof {
        assert(crate::json::view_entries(acc@) =~= Seq::<(Seq<char>, crate::json::Json)>::empty());
    }
    let mut i: usize = 0;
    while i < sources.len()
        invariant
            i <= sources@.len(),
            parsed@.len() == sources@.len(),
            srcs == sources_view(sources@),
            pv == parsed_views(parsed@),
            merge_prefix(srcs, pv, i as int) == Ok::<Seq<(Seq<char>, crate::json::Json)>, ParseFailure>(
                crate::json::view_entries(acc@),
            ),
        decreases sources@.len() - i,
    {
        proof {
            assert(srcs[i as int] == source_view(sources@[i as int]));
            assert(pv[i as int] == parsed_view(parsed@[i as int]));
        }
        match &sources[i] {
            PromptArgumentSource::Pair(k, t) => {
                let value = match &parsed[i] {
                    Ok(v) => v.deep_clone(),
                    Err(_) => crate::json::JsonValue::String(t.clone()),
                };
                crate::json::object_insert_exec(&mut acc, k.clone(), value);
            },
            PromptArgumentSource::Json(_) => {
                match &parsed[i] {
                    Err(msg) => {
                        let mut m = String::from_str("Invalid --arguments-json value: ");
                        m.append(msg.as_str());
                        proof {
                            lemma_merge_err(srcs, pv, i + 1, sources@.len() as int);
                        }
                        return Err(fail(m));
                    },
                    Ok(crate::json::JsonValue::Object(members)) => {
                        let ghost start = crate::json::view_entries(acc@);
                        let ghost mv = crate::json::view_entries(members@);
                        proof {
                            crate::json::lemma_view_entries(members@);
                            assert(mv.subrange(0, 0) =~= Seq::<(Seq<char>, crate::json::Json)>::empty());
                        }
                        let mut j: usize = 0;
                        while j < members.len()
                            invariant
                                j <= members@.len(),
                                mv == crate::json::view_entries(members@),
                                mv.len() == members@.len(),
                                forall|q: int| 0 <= q < members@.len() ==> #[trigger] mv[q] == (members@[q].0@, members@[q].1@),
                                crate::json::view_entries(acc@) == crate::json::object_insert_all(start, mv.subrange(0, j as int)),
                            decreases members@.len() - j,
                        {
                            proof {
                                let pre = mv.subrange(0, j + 1);
                                assert(pre.drop_last() =~= mv.subrange(0, j as int));
                                assert(pre.last() == mv[j as int]);
                            }
                            crate::json::object_insert_exec(&mut acc, members[j].0.clone(), members[j].1.deep_clone());
                            j = j + 1;
                        }
                        proof {
                            assert(mv.subrange(0, j as int) =~= mv);
                        }
                    },
                    Ok(_) => {
                        proof {
                            lemma_merge_err(srcs, pv, i + 1, sources@.len() as int);
                        }
                        return Err(fail_lit("--arguments-json must be a JSON object"));
                    },
                }
            },
        }
        i = i + 1;
    }
    if acc.len() == 0 {
        Ok(None)
    } else {
        Ok(Some(acc))
    }
}

} // verus!

verus! {

// ---------------------------------------------------------------------------
// Resolving the probe target from the command line and a config file.
// ---------------------------------------------------------------------------

/// One target as a config file describes it.
pub struct ProbeTargetConfig {
    pub transport: Option<TransportType>,
    pub command: Option<String>,
    pub args: Option<Vec<String>>,
    pub cwd: Option<String>,
    pub env: Option<Vec<(String, String)>>,
    pub url: Option<String>,
    pub headers: Option<Vec<(String, String)>>,
    pub timeout_ms: Option<u64>,
    pub retries: Option<u32>,
    pub retry_delay_ms: Option<u64>,
    pub expect_auth_required: Option<bool>,
    pub log_level: Option<LogLevel>,
    pub log_format: Option<LogFormat>,
    pub trace: Option<bool>,
    pub trace_limit: Option<usize>,
    pub trace_max_bytes: Option<usize>,
    pub descriptor_profile: Option<ToolDescriptorProfile>,
    pub catalog_profile: Option<CatalogProfile>,
    pub catalog_contract: Option<crate::report::CatalogContract>,
    pub catalog_contract_path: Option<String>,
    pub use_auth: Option<bool>,
    pub access_token_path: Option<String>,
}

/// A config file: named profiles, a `target`, and target fields given at
/// the top level.
pub struct ProbeConfigFile {
    pub profiles: Option<Vec<(String, ProbeTargetConfig)>>,
    pub target: Option<ProbeTargetConfig>,
    pub direct: ProbeTargetConfig,
}

fn clone_opt_strings(o: &Option<Vec<String>>) -> (r: Option<Vec<String>>)
    ensures
        opt_strings_view(r) == opt_strings_view(*o),
{
    match o {
        Some(v) => Some(crate::text::clone_strings(v)),
        None => None,
    }
}

fn clone_pairs(v: &Vec<(String, String)>) -> (r: Vec<(String, String)>)
    ensures
        pairs_view(r@) == pairs_view(v@),
{
    let mut out: Vec<(String, String)> = Vec::new();
    let mut i: usize = 0;
    while i < v.len()
        invariant
            i <= v@.len(),
            pairs_view(out@) == pairs_view(v@.subrange(0, i as int)),
        decreases v@.len() - i,
    {
        let a = v[i].0.clone();
        let b = v[i].1.clone();
        let ghost before = out@;
        out.push((a, b));
        proof {
            assert(out@ == before.push((a, b)));
            assert(pairs_view(out@) =~= pairs_view(before).push((a@, b@)));
            assert(pairs_view(v@.subrange(0, i + 1)) =~= pairs_view(v@.subrange(0, i as int)).push((v@[i as int].0@, v@[i as int].1@)));
        }
        i = i + 1;
    }
    proof {
        assert(v@.subrange(0, i as int) =~= v@);
    }
    out
}

fn clone_opt_pairs(o: &Option<Vec<(String, String)>>) -> (r: Option<Vec<(String, String)>>)
    ensures
        opt_pairs_view(r) == opt_pairs_view(*o),
{
    match o {
        Some(v) => Some(clone_pairs(v)),
        None => None,
    }
}

fn clone_opt_contract(o: &Option<crate::report::CatalogContract>) -> (r: Option<crate::report::CatalogContract>)
    ensures
        r is Some == o is Some,
        r matches Some(c) ==> crate::catalog_contract::contract_same(c, o->0),
{
    match o {
        Some(c) => Some(crate::catalog_contract::clone_contract(c)),
        None => None,
    }
}

/// Two optional contracts hold the same values.
pub open spec fn same_opt_contract(a: Option<crate::report::CatalogContract>, b: Option<crate::report::CatalogContract>) -> bool {
    match a {
        Some(x) => b matches Some(y) && crate::catalog_contract::contract_same(x, y),
        None => b is None,
    }
}

/// The overrides a config target gives: its target fields.
pub open spec fn config_overrides_match(o: ProbeTargetOverrides, c: ProbeTargetConfig) -> bool {
    &&& o.transport_type == c.transport
    &&& opt_view(o.command) == opt_view(c.command)
    &&& opt_strings_view(o.args) == opt_strings_view(c.args)
    &&& opt_view(o.cwd) == opt_view(c.cwd)
    &&& opt_pairs_view(o.env) == opt_pairs_view(c.env)
    &&& opt_view(o.url) == opt_view(c.url)
    &&& opt_pairs_view(o.headers) == opt_pairs_view(c.headers)
    &&& o.timeout_ms == c.timeout_ms
    &&& o.retries == c.retries
    &&& o.retry_delay_ms == c.retry_delay_ms
    &&& o.expect_auth_required == c.expect_auth_required
    &&& o.log_level == c.log_level
    &&& o.log_format == c.log_format
    &&& o.trace == c.trace
    &&& o.trace_limit == c.trace_limit
    &&& o.trace_max_bytes == c.trace_max_bytes
    &&& o.descriptor_profile == c.descriptor_profile
    &&& o.catalog_profile == c.catalog_profile
    &&& same_opt_contract(o.catalog_contract, c.catalog_contract)
    &&& opt_view(o.catalog_contract_path) == opt_view(c.catalog_contract_path)
}

/// The target fields of a config target, as overrides.
pub fn map_config_to_overrides(config: &ProbeTargetConfig) -> (r: ProbeTargetOverrides)
    ensures
        config_overrides_match(r, *config),
{
    ProbeTargetOverrides {
        transport_type: config.transport,
        command: crate::text::clone_opt_string(&config.command),
        args: clone_opt_strings(&config.args),
        cwd: crate::text::clone_opt_string(&config.cwd),
        env: clone_opt_pairs(&config.env),
        url: crate::text::clone_opt_string(&config.url),
        headers: clone_opt_pairs(&config.headers),
        timeout_ms: config.timeout_ms,
        retries: config.retries,
        retry_delay_ms: config.retry_delay_ms,
        expect_auth_required: config.expect_auth_required,
        log_level: config.log_level,
        log_format: config.log_format,
        trace: config.trace,
        trace_limit: config.trace_limit,
        trace_max_bytes: config.trace_max_bytes,
        descriptor_profile: config.descriptor_profile,
        catalog_profile: config.catalog_profile,
        catalog_contract: clone_opt_contract(&config.catalog_contract),
        catalog_contract_path: crate::text::clone_opt_string(&config.catalog_contract_path),
    }
}

/// A config target names a transport, a command or a URL.
pub fn config_has_target_fields(config: &ProbeTargetConfig) -> (r: bool)
    ensures
        r == (config.transport is Some || config.command is Some || config.url is Some),
{
    config.transport.is_some() || config.command.is_some() || config.url.is_some()
}

/// The first profile with a name, if any.
pub open spec fn profile_index(profiles: Seq<(String, ProbeTargetConfig)>, name: Seq<char>) -> Option<int> {
    if exists|i: int| 0 <= i < profiles.len() && profiles[i].0@ == name {
        Some(choose|i: int| 0 <= i < profiles.len() && profiles[i].0@ == name && forall|j: int| 0 <= j < i ==> profiles[j].0@ != name)
    } else {
        None
    }
}

/// Which target of a config file applies: the named profile, else its
/// `target`, else its top-level fields when they name a target; the
/// failure otherwise.
pub open spec fn selected_config(file: ProbeConfigFile, config_path: Seq<char>, profile: Option<Seq<char>>) -> Result<
    ProbeTargetConfig,
    Seq<char>,
> {
    match profile {
        Some(p) => {
            let ps = match file.profiles {
                Some(v) => v@,
                None => Seq::empty(),
            };
            match profile_index(ps, p) {
                Some(i) => Ok(ps[i].1),
                None => Err("Profile "@ + p + " not found in "@ + config_path),
            }
        },
        None => if file.target is Some {
            Ok(file.target->0)
        } else if file.direct.transport is Some || file.direct.command is Some || file.direct.url is Some {
            Ok(file.direct)
        } else {
            Err("No target configuration found in "@ + config_path)
        },
    }
}

/// Pick the target of a config file.
#[verifier::loop_isolation(false)]
pub fn select_target_config<'a>(file: &'a ProbeConfigFile, config_path: &str, profile: Option<&str>) -> (r: Result<
    &'a ProbeTargetConfig,
    String,
>)
    ensures
        match selected_config(
            *file,
            config_path@,
            match profile {
                Some(p) => Some(p@),
                None => None,
            },
        ) {
            Ok(c) => r matches Ok(rc) && *rc == c,
            Err(m) => r matches Err(rm) && rm@ == m,
        },
{
    match profile {
        Some(p) => {
            match &file.profiles {
                Some(ps) => {
                    let mut i: usize = 0;
                    while i < ps.len()
                        invariant
                            i <= ps@.len(),
                            forall|j: int| 0 <= j < i ==> ps@[j].0@ != p@,
                        decreases ps@.len() - i,
                    {
                        if str_eq(ps[i].0.as_str(), p) {
                            proof {
                                assert(0 <= i < ps@.len() && ps@[i as int].0@ == p@ && forall|j: int|
                                    0 <= j < i ==> ps@[j].0@ != p@);
                                assert(file.profiles == Some(*ps));
                                let k = choose|k: int|
                                    0 <= k < ps@.len() && ps@[k].0@ == p@ && forall|j: int| 0 <= j < k ==> ps@[j].0@ != p@;
                                assert(k == i) by {
                                    if k > i {
                                        assert(ps@[i as int].0@ == p@);
                                    }
                                }
                            }
                            return Ok(&ps[i].1);
                        }
                        i = i + 1;
                    }
                },
                None => {},
            }
            let mut m = String::from_str("Profile ");
            m.append(p);
            m.append(" not found in ");
            m.append(config_path);
            Err(m)
        },
        None => {
            if file.target.is_some() {
                match &file.target {
                    Some(t) => Ok(t),
                    None => Err(String::new()),
                }
            } else if config_has_target_fields(&file.direct) {
                Ok(&file.direct)
            } else {
                let mut m = String::from_str("No target configuration found in ");
                m.append(config_path);
                Err(m)
            }
        },
    }
}

/// Each pair inserted in turn, as `HashMap::extend`.
pub open spec fn pairs_insert_all(m: Seq<(Seq<char>, Seq<char>)>, ps: Seq<(Seq<char>, Seq<char>)>) -> Seq<
    (Seq<char>, Seq<char>),
>
    decreases ps.len(),
{
    if ps.len() == 0 {
        m
    } else {
        pairs_insert(pairs_insert_all(m, ps.drop_last()), ps.last().0, ps.last().1)
    }
}

/// Name/value pairs given or not.
pub open spec fn opt_pairs_seq(o: Option<Vec<(String, String)>>) -> Seq<(Seq<char>, Seq<char>)> {
    match o {
        Some(v) => pairs_view(v@),
        None => Seq::empty(),
    }
}

/// Merge two maps, the overriding pairs replacing the base ones.
pub fn merge_maps(base: Option<Vec<(String, String)>>, overrides: Option<Vec<(String, String)>>) -> (r: Vec<
    (String, String),
>)
    requires
        distinct_names(opt_pairs_seq(base)),
    ensures
        distinct_names(pairs_view(r@)),
        pairs_view(r@) == pairs_insert_all(opt_pairs_seq(base), opt_pairs_seq(overrides)),
{
    let ghost b0 = opt_pairs_seq(base);
    let ghost ov = opt_pairs_seq(overrides);
    let mut merged = match base {
        Some(b) => b,
        None => Vec::new(),
    };
    proof {
        assert(pairs_view(merged@) =~= b0);
    }
    match overrides {
        Some(o) => {
            let mut i: usize = 0;
            while i < o.len()
                invariant
                    i <= o@.len(),
                    ov == pairs_view(o@),
                    distinct_names(pairs_view(merged@)),
                    pairs_view(merged@) == pairs_insert_all(b0, ov.subrange(0, i as int)),
                decreases o@.len() - i,
            {
                proof {
                    let pre = ov.subrange(0, i + 1);
                    assert(pre.drop_last() =~= ov.subrange(0, i as int));
                    assert(pre.last() == (o@[i as int].0@, o@[i as int].1@));
                }
                insert_pair(&mut merged, o[i].0.clone(), o[i].1.clone());
                i = i + 1;
            }
            proof {
                assert(ov.subrange(0, i as int) =~= ov);
            }
        },
        None => {},
    }
    merged
}

/// Where the catalog contract comes from: a file to read (the overriding
/// path, else the config's), or the contract given inline.
pub enum ContractSource {
    File(String),
    Given(Option<crate::report::CatalogContract>),
}

/// Where the catalog contract of a run comes from.
pub fn catalog_contract_source(overrides: &ProbeTargetOverrides, base: &ProbeTargetOverrides) -> (r: ContractSource)
    ensures
        match opt_view(overrides.catalog_contract_path) {
            Some(p) => r matches ContractSource::File(f) && f@ == p,
            None => match opt_view(base.catalog_contract_path) {
                Some(p) => r matches ContractSource::File(f) && f@ == p,
                None => r matches ContractSource::Given(c) && same_opt_contract(
                    c,
                    if overrides.catalog_contract is Some {
                        overrides.catalog_contract
                    } else {
                        base.catalog_contract
                    },
                ),
            },
        },
{
    match &overrides.catalog_contract_path {
        Some(p) => ContractSource::File(p.clone()),
        None => match &base.catalog_contract_path {
            Some(p) => ContractSource::File(p.clone()),
            None => {
                if overrides.catalog_contract.is_some() {
                    ContractSource::Given(clone_opt_contract(&overrides.catalog_contract))
                } else {
                    ContractSource::Given(clone_opt_contract(&base.catalog_contract))
                }
            },
        },
    }
}

/// The transport in effect: the overriding one, else the config's.
pub fn resolved_transport(overrides: &ProbeTargetOverrides, base: &ProbeTargetOverrides) -> (r: Option<TransportType>)
    ensures
        r == (if overrides.transport_type is Some {
            overrides.transport_type
        } else {
            base.transport_type
        }),
{
    match overrides.transport_type {
        Some(t) => Some(t),
        None => base.transport_type,
    }
}

/// A target is usable: stdio needs a command, HTTP transports a URL.
pub open spec fn target_problem(target: crate::probe::ProbeTarget) -> Option<Seq<char>> {
    match target.transport_type {
        TransportType::Stdio => if target.command is None {
            Some("Missing command for stdio transport."@)
        } else {
            None
        },
        _ => if target.url is None {
            Some("Missing URL for HTTP transport."@)
        } else {
            None
        },
    }
}

/// Check that a target can be connected to.
pub fn validate_target(target: &crate::probe::ProbeTarget) -> (r: Result<(), String>)
    ensures
        match target_problem(*target) {
            Some(m) => r matches Err(e) && e@ == m,
            None => r is Ok,
        },
{
    match target.transport_type {
        TransportType::Stdio => {
            if target.command.is_none() {
                return Err(String::from_str("Missing command for stdio transport."));
            }
        },
        _ => {
            if target.url.is_none() {
                return Err(String::from_str("Missing URL for HTTP transport."));
            }
        },
    }
    Ok(())
}

/// The first of two options that is present.
pub open spec fn or_else<T>(a: Option<T>, b: Option<T>) -> Option<T> {
    if a is Some {
        a
    } else {
        b
    }
}

fn or_string(a: Option<String>, b: Option<String>) -> (r: Option<String>)
    ensures
        opt_view(r) == or_else(opt_view(a), opt_view(b)),
{
    match a {
        Some(s) => Some(s),
        None => b,
    }
}

/// The target the overrides and the config give together: each field
/// from the overrides when set, else from the config; environment and
/// headers merged (none when empty).
pub open spec fn target_matches(
    t: crate::probe::ProbeTarget,
    o: ProbeTargetOverrides,
    b: ProbeTargetOverrides,
    transport: TransportType,
    contract: Option<crate::report::CatalogContract>,
) -> bool {
    let env = pairs_insert_all(opt_pairs_seq(b.env), opt_pairs_seq(o.env));
    let headers = pairs_insert_all(opt_pairs_seq(b.headers), opt_pairs_seq(o.headers));
    &&& t.transport_type == transport
    &&& opt_view(t.command) == or_else(opt_view(o.command), opt_view(b.command))
    &&& opt_strings_view(t.args) == or_else(opt_strings_view(o.args), opt_strings_view(b.args))
    &&& opt_view(t.cwd) == or_else(opt_view(o.cwd), opt_view(b.cwd))
    &&& opt_pairs_view(t.env) == (if env.len() == 0 { None } else { Some(env) })
    &&& opt_view(t.url) == or_else(opt_view(o.url), opt_view(b.url))
    &&& opt_pairs_view(t.headers) == (if headers.len() == 0 { None } else { Some(headers) })
    &&& t.timeout_ms == or_else(o.timeout_ms, b.timeout_ms)
    &&& t.retries == or_else(o.retries, b.retries)
    &&& t.retry_delay_ms == or_else(o.retry_delay_ms, b.retry_delay_ms)
    &&& t.expect_auth_required == or_else(o.expect_auth_required, b.expect_auth_required)
    &&& t.log_level == or_else(o.log_level, b.log_level)
    &&& t.log_format == or_else(o.log_format, b.log_format)
    &&& t.trace == or_else(o.trace, b.trace)
    &&& t.trace_limit == or_else(o.trace_limit, b.trace_limit)
    &&& t.trace_max_bytes == or_else(o.trace_max_bytes, b.trace_max_bytes)
    &&& t.descriptor_profile == or_else(o.descriptor_profile, b.descriptor_profile)
    &&& t.catalog_profile == or_else(o.catalog_profile, b.catalog_profile)
    &&& same_opt_contract(t.catalog_contract, contract)
}

fn nonempty_pairs(v: Vec<(String, String)>) -> (r: Option<Vec<(String, String)>>)
    ensures
        opt_pairs_view(r) == (if v@.len() == 0 { None } else { Some(pairs_view(v@)) }),
{
    if v.len() == 0 {
        None
    } else {
        Some(v)
    }
}

/// Resolve the probe target: the command-line overrides over the config
/// target `base` (no config gives empty overrides), the transport required
/// first, then the catalog contract as read (`contract`: the contract
/// itself, or the failure to read or parse its file), then the target's
/// own check. Also resolves whether to use auth and the token path.
pub fn resolve_target(
    overrides: ProbeTargetOverrides,
    base: ProbeTargetOverrides,
    base_use_auth: Option<bool>,
    base_access_token_path: Option<String>,
    use_auth_override: Option<bool>,
    access_token_path_override: Option<&str>,
    contract: Result<Option<crate::report::CatalogContract>, String>,
) -> (r: Result<(crate::probe::ProbeTarget, bool, Option<String>), String>)
    requires
        distinct_names(opt_pairs_seq(base.env)),
        distinct_names(opt_pairs_seq(base.headers)),
    ensures
        match or_else(overrides.transport_type, base.transport_type) {
            None => r matches Err(m) && m@ == "Missing transport configuration."@,
            Some(transport) => match contract {
                Err(e) => r matches Err(m) && m@ == e@,
                Ok(c) => match r {
                    Ok((t, use_auth, token_path)) => target_matches(t, overrides, base, transport, c)
                        && target_problem(t) is None && use_auth == (match or_else(use_auth_override, base_use_auth) {
                        Some(b) => b,
                        None => false,
                    }) && opt_view(token_path) == or_else(
                        match access_token_path_override {
                            Some(p) => Some(p@),
                            None => None,
                        },
                        opt_view(base_access_token_path),
                    ),
                    Err(m) => (exists|t: crate::probe::ProbeTarget|
                        target_matches(t, overrides, base, transport, c) && target_problem(t) == Some(m@)),
                },
            },
        },
{
    let transport = match resolved_transport(&overrides, &base) {
        None => {
            return Err(String::from_str("Missing transport configuration."));
        },
        Some(t) => t,
    };
    let catalog_contract = match contract {
        Err(e) => {
            return Err(e);
        },
        Ok(c) => c,
    };
    let ghost c0 = catalog_contract;
    let merged_headers = merge_maps(base.headers, overrides.headers);
    let merged_env = merge_maps(base.env, overrides.env);
    let target = crate::probe::ProbeTarget {
        transport_type: transport,
        command: or_string(overrides.command, base.command),
        args: match overrides.args {
            Some(a) => Some(a),
            None => base.args,
        },
        cwd: or_string(overrides.cwd, base.cwd),
        env: nonempty_pairs(merged_env),
        url: or_string(overrides.url, base.url),
        headers: nonempty_pairs(merged_headers),
        timeout_ms: match overrides.timeout_ms {
            Some(v) => Some(v),
            None => base.timeout_ms,
        },
        retries: match overrides.retries {
            Some(v) => Some(v),
            None => base.retries,
        },
        retry_delay_ms: match overrides.retry_delay_ms {
            Some(v) => Some(v),
            None => base.retry_delay_ms,
        },
        expect_auth_required: match overrides.expect_auth_required {
            Some(v) => Some(v),
            None => base.expect_auth_required,
        },
        log_level: match overrides.log_level {
            Some(v) => Some(v),
            None => base.log_level,
        },
        log_format: match overrides.log_format {
            Some(v) => Some(v),
            None => base.log_format,
        },
        trace: match overrides.trace {
            Some(v) => Some(v),
            None => base.trace,
        },
        trace_limit: match overrides.trace_limit {
            Some(v) => Some(v),
            None => base.trace_limit,
        },
        trace_max_bytes: match overrides.trace_max_bytes {
            Some(v) => Some(v),
            None => base.trace_max_bytes,
        },
        descriptor_profile: match overrides.descriptor_profile {
            Some(v) => Some(v),
            None => base.descriptor_profile,
        },
        catalog_profile: match overrides.catalog_profile {
            Some(v) => Some(v),
            None => base.catalog_profile,
        },
        catalog_contract,
    };
    proof {
        crate::catalog_contract::lemma_contract_same_refl(c0);
    }
    match validate_target(&target) {
        Err(e) => {
            return Err(e);
        },
        Ok(_) => {},
    }
    let use_auth = match use_auth_override {
        Some(b) => b,
        None => match base_use_auth {
            Some(b) => b,
            None => false,
        },
    };
    let token_path = match access_token_path_override {
        Some(p) => Some(String::from_str(p)),
        None => base_access_token_path,
    };
    Ok((target, use_auth, token_path))
}

} // verus!

verus! {

// ---------------------------------------------------------------------------
// Shaping reports for output.
// ---------------------------------------------------------------------------

/// A catalog artifact without its raw discovery payloads.
pub open spec fn catalog_without_raw(c: crate::report::CatalogArtifact) -> crate::report::CatalogArtifact {
    crate::report::CatalogArtifact {
        server_info: None,
        capabilities: None,
        tools: None,
        resources: None,
        resource_templates: None,
        prompts: None,
        ..c
    }
}

/// A probe report without its raw payloads, unless they are asked for.
pub open spec fn report_without_raw(r: crate::report::ProbeReport, include_raw: bool) -> crate::report::ProbeReport {
    if include_raw {
        r
    } else {
        crate::report::ProbeReport {
            auth: None,
            server_info: None,
            capabilities: None,
            tools: None,
            resources: None,
            resource_templates: None,
            prompts: None,
            catalog: match r.catalog {
                Some(c) => Some(catalog_without_raw(c)),
                None => None,
            },
            trace: None,
            ..r
        }
    }
}

/// Drop the raw payloads of a probe report unless they are asked for.
pub fn strip_raw(report: crate::report::ProbeReport, include_raw: bool) -> (r: crate::report::ProbeReport)
    ensures
        r == report_without_raw(report, include_raw),
{
    if include_raw {
        return report;
    }
    let mut report = report;
    report.auth = None;
    report.server_info = None;
    report.capabilities = None;
    report.tools = None;
    report.resources = None;
    report.resource_templates = None;
    report.prompts = None;
    report.catalog = match report.catalog {
        Some(mut catalog) => {
            catalog.server_info = None;
            catalog.capabilities = None;
            catalog.tools = None;
            catalog.resources = None;
            catalog.resource_templates = None;
            catalog.prompts = None;
            Some(catalog)
        },
        None => None,
    };
    report.trace = None;
    report
}

/// The report of a command line that could not be run: one failed `cli`
/// step with the message, started and finished at the given times.
pub fn build_error_report(message: &str, started_at: String, finished_at: String) -> (r: crate::report::ProbeReport)
    ensures
        !r.ok,
        r.started_at@ == started_at@,
        r.finished_at@ == finished_at@,
        r.steps@.len() == 1,
        r.steps@[0].name@ == "cli"@,
        r.steps@[0].status == crate::report::ProbeStepStatus::Error,
        opt_view(r.steps@[0].detail) == Some(message@),
        r.steps@[0].data is None,
        r.auth is None && r.server_info is None && r.capabilities is None && r.tools is None,
        r.resources is None && r.resource_templates is None && r.prompts is None,
        r.catalog is None && r.trace is None,
{
    let mut steps: Vec<crate::report::ProbeStep> = Vec::new();
    steps.push(
        crate::report::ProbeStep {
            name: String::from_str("cli"),
            status: crate::report::ProbeStepStatus::Error,
            detail: Some(String::from_str(message)),
            data: None,
        },
    );
    crate::report::ProbeReport {
        ok: false,
        started_at,
        finished_at,
        steps,
        auth: None,
        server_info: None,
        capabilities: None,
        tools: None,
        resources: None,
        resource_templates: None,
        prompts: None,
        catalog: None,
        trace: None,
    }
}

/// A raw-request report without its raw payloads, unless they are asked
/// for (or the verbosity is full).
pub open spec fn raw_report_without_raw(
    r: crate::report::RawRequestReport,
    include_raw: bool,
    verbosity: Option<ReportVerbosity>,
) -> crate::report::RawRequestReport {
    if include_raw || verbosity == Some(ReportVerbosity::Full) {
        r
    } else {
        crate::report::RawRequestReport { auth: None, server_info: None, capabilities: None, trace: None, ..r }
    }
}

/// Drop the raw payloads of a raw-request report unless they are asked
/// for.
pub fn strip_raw_request_report(
    report: crate::report::RawRequestReport,
    include_raw: bool,
    verbosity: Option<ReportVerbosity>,
) -> (r: crate::report::RawRequestReport)
    ensures
        r == raw_report_without_raw(report, include_raw, verbosity),
{
    if include_raw || verbosity == Some(ReportVerbosity::Full) {
        return report;
    }
    let mut report = report;
    report.auth = None;
    report.server_info = None;
    report.capabilities = None;
    report.trace = None;
    report
}

/// A raw JSON-RPC request against a resolved probe target.
pub fn raw_target_from_probe_target(
    target: crate::probe::ProbeTarget,
    method: String,
    params: Option<crate::json::JsonValue>,
    expect_error: Option<crate::probe::ExpectError>,
) -> (r: crate::probe::RawRequestTarget)
    ensures
        r == (crate::probe::RawRequestTarget {
            transport_type: target.transport_type,
            command: target.command,
            args: target.args,
            cwd: target.cwd,
            env: target.env,
            url: target.url,
            headers: target.headers,
            timeout_ms: target.timeout_ms,
            retries: target.retries,
            retry_delay_ms: target.retry_delay_ms,
            expect_auth_required: target.expect_auth_required,
            log_level: target.log_level,
            log_format: target.log_format,
            trace: target.trace,
            trace_limit: target.trace_limit,
            trace_max_bytes: target.trace_max_bytes,
            method,
            params,
            expect_error,
        }),
{
    crate::probe::RawRequestTarget {
        transport_type: target.transport_type,
        command: target.command,
        args: target.args,
        cwd: target.cwd,
        env: target.env,
        url: target.url,
        headers: target.headers,
        timeout_ms: target.timeout_ms,
        retries: target.retries,
        retry_delay_ms: target.retry_delay_ms,
        expect_auth_required: target.expect_auth_required,
        log_level: target.log_level,
        log_format: target.log_format,
        trace: target.trace,
        trace_limit: target.trace_limit,
        trace_max_bytes: target.trace_max_bytes,
        method,
        params,
        expect_error,
    }
}

} // verus!

verus! {

/// The URL whose cached tokens `--use-auth` attaches: only HTTP targets
/// take them, and the target must name a URL.
pub open spec fn auth_header_url(t: crate::probe::ProbeTarget) -> Result<Seq<char>, Seq<char>> {
    if t.transport_type == TransportType::Stdio {
        Err("use-auth is only supported for HTTP transports."@)
    } else {
        match t.url {
            None => Err("Missing target URL for auth header injection."@),
            Some(u) => Ok(u@),
        }
    }
}

/// Decide which URL's cached tokens a target's headers get.
pub fn auth_header_target(target: &crate::probe::ProbeTarget) -> (r: Result<String, String>)
    ensures
        match auth_header_url(*target) {
            Ok(u) => r matches Ok(s) && s@ == u,
            Err(m) => r matches Err(e) && e@ == m,
        },
{
    if target.transport_type == TransportType::Stdio {
        return Err(String::from_str("use-auth is only supported for HTTP transports."));
    }
    match &target.url {
        None => Err(String::from_str("Missing target URL for auth header injection.")),
        Some(u) => Ok(u.clone()),
    }
}

} // verus!

verus! {

/// How a resolved target gets its bearer token: not at all, from a token
/// file, or from the token cache of its URL.
pub enum TargetAuth {
    NoAuth,
    ReadToken(String),
    UseCache(String),
}

/// The auth step of a CLI run: both sources at once is refused; a token
/// file needs an HTTP target with a URL; cached tokens need the same (see
/// `auth_header_url`).
pub open spec fn target_auth_matches(
    t: crate::probe::ProbeTarget,
    use_auth: bool,
    token_path: Option<Seq<char>>,
    r: Result<TargetAuth, String>,
) -> bool {
    if use_auth && token_path is Some {
        r matches Err(e) && e@ == "Specify only one auth source: use-auth or access-token-path."@
    } else if token_path is Some {
        if t.transport_type == TransportType::Stdio {
            r matches Err(e) && e@ == "access-token-path is only supported for HTTP transports."@
        } else if t.url is None {
            r matches Err(e) && e@ == "Missing target URL for access-token-path."@
        } else {
            r matches Ok(TargetAuth::ReadToken(p)) && p@ == token_path->0
        }
    } else if use_auth {
        match auth_header_url(t) {
            Ok(u) => r matches Ok(TargetAuth::UseCache(s)) && s@ == u,
            Err(m) => r matches Err(e) && e@ == m,
        }
    } else {
        r matches Ok(TargetAuth::NoAuth)
    }
}

/// Decide how a resolved target gets its bearer token.
pub fn target_auth_plan(target: &crate::probe::ProbeTarget, use_auth: bool, access_token_path: Option<&str>) -> (r:
    Result<TargetAuth, String>)
    ensures
        target_auth_matches(
            *target,
            use_auth,
            match access_token_path {
                Some(p) => Some(p@),
                None => None,
            },
            r,
        ),
{
    match access_token_path {
        Some(p) => {
            if use_auth {
                return Err(String::from_str("Specify only one auth source: use-auth or access-token-path."));
            }
            if target.transport_type == TransportType::Stdio {
                return Err(String::from_str("access-token-path is only supported for HTTP transports."));
            }
            if target.url.is_none() {
                return Err(String::from_str("Missing target URL for access-token-path."));
            }
            Ok(TargetAuth::ReadToken(String::from_str(p)))
        },
        None => if use_auth {
            match auth_header_target(target) {
                Ok(u) => Ok(TargetAuth::UseCache(u)),
                Err(e) => Err(e),
            }
        } else {
            Ok(TargetAuth::NoAuth)
        },
    }
}

/// The verbosity a probe report is printed with: the one asked for, else
/// full when raw output was asked for.
pub fn effective_verbosity(verbosity: Option<ReportVerbosity>, include_raw: bool) -> (r: Option<ReportVerbosity>)
    ensures
        r == (match verbosity {
            Some(v) => Some(v),
            None => if include_raw {
                Some(ReportVerbosity::Full)
            } else {
                None
            },
        }),
{
    match verbosity {
        Some(v) => Some(v),
        None => if include_raw {
            Some(ReportVerbosity::Full)
        } else {
            None
        },
    }
}

/// The options that take no value are not among those that do.
proof fn lemma_flags_take_no_value()
    ensures
        !consumes_value("--pretty"@),
        !consumes_value("--json"@),
        !consumes_value("--include-raw"@),
        !consumes_value("--expect-auth-required"@),
        !consumes_value("--use-auth"@),
        !consumes_value("--trace"@),
        !consumes_value("--snapshot-write"@),
{
    reveal_strlit("--pretty");
    reveal_strlit("--json");
    reveal_strlit("--include-raw");
    reveal_strlit("--expect-auth-required");
    reveal_strlit("--use-auth");
    reveal_strlit("--trace");
    reveal_strlit("--snapshot-write");
    reveal_strlit("--transport");
    reveal_strlit("--command");
    reveal_strlit("--arg");
    reveal_strlit("--url");
    reveal_strlit("--header");
    reveal_strlit("--out");
    reveal_strlit("--timeout-ms");
    reveal_strlit("--retries");
    reveal_strlit("--retry-delay-ms");
    reveal_strlit("--access-token-path");
    reveal_strlit("--config");
    reveal_strlit("--profile");
    reveal_strlit("--log-level");
    reveal_strlit("--log-format");
    reveal_strlit("--trace-limit");
    reveal_strlit("--trace-max-bytes");
    reveal_strlit("--descriptor-profile");
    reveal_strlit("--catalog-profile");
    reveal_strlit("--catalog-contract");
    reveal_strlit("--verbosity");
    reveal_strlit("--cwd");
    reveal_strlit("--env");
    reveal_strlit("--script");
    assert("--pretty"@.len() == 8);
    assert("--json"@.len() == 6);
    assert("--include-raw"@.len() == 13);
    assert("--expect-auth-required"@.len() == 22);
    assert("--use-auth"@.len() == 10);
    assert("--trace"@.len() == 7);
    assert("--snapshot-write"@.len() == 16);
    assert("--transport"@.len() == 11);
    assert("--command"@.len() == 9);
    assert("--arg"@.len() == 5);
    assert("--url"@.len() == 5);
    assert("--header"@.len() == 8);
    assert("--out"@.len() == 5);
    assert("--timeout-ms"@.len() == 12);
    assert("--retries"@.len() == 9);
    assert("--retry-delay-ms"@.len() == 16);
    assert("--access-token-path"@.len() == 19);
    assert("--config"@.len() == 8);
    assert("--profile"@.len() == 9);
    assert("--log-level"@.len() == 11);
    assert("--log-format"@.len() == 12);
    assert("--trace-limit"@.len() == 13);
    assert("--trace-max-bytes"@.len() == 17);
    assert("--descriptor-profile"@.len() == 20);
    assert("--catalog-profile"@.len() == 17);
    assert("--catalog-contract"@.len() == 18);
    assert("--verbosity"@.len() == 11);
    assert("--cwd"@.len() == 5);
    assert("--env"@.len() == 5);
    assert("--script"@.len() == 8);
    crate::text::lemma_differ_at("--pretty"@, "--header"@, 2);
    crate::text::lemma_differ_at("--pretty"@, "--config"@, 2);
    crate::text::lemma_differ_at("--pretty"@, "--script"@, 2);
    crate::text::lemma_differ_at("--include-raw"@, "--trace-limit"@, 2);
    crate::text::lemma_differ_at("--snapshot-write"@, "--retry-delay-ms"@, 2);
}

/// The options `parse_args` reads a value for are exactly those that
/// `option_consumes_value` names: whenever an option is accepted, it took
/// the next argument if and only if it is one of them.
pub proof fn lemma_consumed_options_agree(m: ArgsModel, opt: Seq<char>, next: Option<Seq<char>>)
    ensures
        apply_run_option(m, opt, next) matches Ok((_, took)) ==> took == consumes_value(opt),
{
    lemma_flags_take_no_value();
    reveal(apply_run_option);
}

} // verus!
