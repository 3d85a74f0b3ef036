//! Choosing the upstream proxy for a request: the PAC engine's state
//! (script freshness, reachability, per-host answers), reading a PAC
//! result, and running `FindProxyForURL` in QuickJS.
//!
//! Times are nanoseconds on a monotonic clock chosen by the caller.
use vstd::prelude::*;

use crate::codec::{debug_quote, debug_quoted};
use crate::config::Config;
use crate::order::{lemma_text_order_total, sort_texts, text_order};
use std::collections::hash_map::DefaultHasher;
use std::hash::Hasher;
use vstd::seq_lib::{group_to_multiset_ensures, lemma_sorted_unique};
use vstd::std_specs::hash::DefaultHasherAdditionalSpecFns;
use vstd::utf8::encode_utf8;
use crate::text::{
    chars_eq_ignore_ascii_case, chars_of, chars_start_with, eq_ignore_ascii_case, find_char_from,
    lemma_index_of, push_str, split_seq, starts_with, string_from_chars,
    sub_chars, trim_chars, trim_seq, trim_to_string,
};

verus! {

broadcast use vstd::string::group_string_axioms;

// ─────────────────────────────── PAC results ───────────────────────────────

/// Where a PAC result sends a request.
pub enum ProxyDirective<S> {
    Direct,
    Proxy(S),
}

impl View for ProxyDirective<String> {
    type V = ProxyDirective<Seq<char>>;

    open spec fn view(&self) -> ProxyDirective<Seq<char>> {
        match self {
            ProxyDirective::Direct => ProxyDirective::Direct,
            ProxyDirective::Proxy(a) => ProxyDirective::Proxy(a@),
        }
    }
}

/// The address after a `PROXY `, `proxy `, `HTTPS ` or `https ` keyword.
pub open spec fn proxy_keyword_rest(d: Seq<char>) -> Option<Seq<char>> {
    if starts_with(d, "PROXY "@) {
        Some(d.skip(6))
    } else if starts_with(d, "proxy "@) {
        Some(d.skip(6))
    } else if starts_with(d, "HTTPS "@) {
        Some(d.skip(6))
    } else if starts_with(d, "https "@) {
        Some(d.skip(6))
    } else {
        None
    }
}

/// The first usable directive among `pieces` (each trimmed): `DIRECT` in
/// any ASCII case, or a proxy keyword with its trimmed address; `DIRECT`
/// when none is usable.
pub open spec fn directive_of(pieces: Seq<Seq<char>>) -> ProxyDirective<Seq<char>>
    decreases pieces.len(),
{
    if pieces.len() == 0 {
        ProxyDirective::Direct
    } else {
        let d = trim_seq(pieces[0]);
        if eq_ignore_ascii_case(d, "DIRECT"@) {
            ProxyDirective::Direct
        } else {
            match proxy_keyword_rest(d) {
                Some(addr) => ProxyDirective::Proxy(trim_seq(addr)),
                None => directive_of(pieces.drop_first()),
            }
        }
    }
}

/// How one `;`-separated piece of a PAC result reads: `Some` when it
/// decides, `None` to look at the next piece.
fn read_directive(piece: &[char]) -> (r: Option<ProxyDirective<String>>)
    ensures
        ({
            let d = trim_seq(piece@);
            if eq_ignore_ascii_case(d, "DIRECT"@) {
                r matches Some(ProxyDirective::Direct)
            } else {
                match proxy_keyword_rest(d) {
                    Some(addr) => r matches Some(ProxyDirective::Proxy(a)) && a@ == trim_seq(addr),
                    None => r is None,
                }
            }
        }),
{
    proof {
        reveal_strlit("PROXY ");
        reveal_strlit("proxy ");
        reveal_strlit("HTTPS ");
        reveal_strlit("https ");
    }
    let d = trim_chars(piece);
    let direct = chars_of("DIRECT");
    if chars_eq_ignore_ascii_case(d.as_slice(), direct.as_slice()) {
        return Some(ProxyDirective::Direct);
    }
    let k1 = chars_of("PROXY ");
    let k2 = chars_of("proxy ");
    let k3 = chars_of("HTTPS ");
    let k4 = chars_of("https ");
    if chars_start_with(d.as_slice(), k1.as_slice()) || chars_start_with(d.as_slice(), k2.as_slice())
        || chars_start_with(d.as_slice(), k3.as_slice()) || chars_start_with(
        d.as_slice(),
        k4.as_slice(),
    ) {
        let rest = sub_chars(d.as_slice(), 6, d.len());
        assert(rest@ == d@.skip(6));
        return Some(ProxyDirective::Proxy(trim_to_string(rest.as_slice())));
    }
    None
}

proof fn lemma_directive_cons(a: Seq<char>, rest: Seq<Seq<char>>)
    ensures
        directive_of(seq![a] + rest) == ({
            let d = trim_seq(a);
            if eq_ignore_ascii_case(d, "DIRECT"@) {
                ProxyDirective::Direct
            } else {
                match proxy_keyword_rest(d) {
                    Some(addr) => ProxyDirective::Proxy(trim_seq(addr)),
                    None => directive_of(rest),
                }
            }
        }),
{
    let l = seq![a] + rest;
    assert(l[0] == a);
    assert(l.drop_first() =~= rest);
}

/// Where the PAC result `result` (e.g. `"PROXY p:8080; DIRECT"`) sends the
/// request.
pub fn parse_pac_result(result: &str) -> (r: ProxyDirective<String>)
    ensures
        r@ == directive_of(split_seq(result@, ';')),
{
    let cs = chars_of(result);
    let n = cs.len();
    let mut pos: usize = 0;
    assert(cs@.skip(0) == cs@);
    loop
        invariant
            n == cs@.len(),
            pos <= n,
            cs@ == result@,
            directive_of(split_seq(cs@, ';')) == directive_of(split_seq(cs@.skip(pos as int), ';')),
        decreases n - pos,
    {
        let found = find_char_from(cs.as_slice(), ';', pos);
        let ghost t = cs@.skip(pos as int);
        proof {
            lemma_index_of(t, ';');
        }
        let end = match found {
            Some(i) => i,
            None => n,
        };
        let piece = sub_chars(cs.as_slice(), pos, end);
        let read = read_directive(piece.as_slice());
        proof {
            if found.is_some() {
                assert(t.take(end - pos) == piece@);
                assert(t.skip(end - pos + 1) == cs@.skip(end + 1));
                lemma_directive_cons(piece@, split_seq(t.skip(end - pos + 1), ';'));
            } else {
                assert(t == piece@);
                lemma_directive_cons(piece@, Seq::<Seq<char>>::empty());
                assert(seq![t] =~= seq![t] + Seq::<Seq<char>>::empty());
                assert(directive_of(Seq::<Seq<char>>::empty()) == ProxyDirective::<
                    Seq<char>,
                >::Direct);
            }
        }
        match read {
            Some(d) => {
                return d;
            },
            None => {},
        }
        match found {
            Some(i) => {
                pos = i + 1;
            },
            None => {
                return ProxyDirective::Direct;
            },
        }
    }
}

// ─────────────────────────────── QuickJS ───────────────────────────────

/// The helper functions (`isPlainHostName`, `dnsDomainIs`, `shExpMatch`,
/// ...) defined before a PAC script runs.
pub const PAC_HELPERS: &'static str = r#"
function isPlainHostName(host) { return host.indexOf('.') === -1; }
function dnsDomainIs(host, domain) {
    return host.length >= domain.length &&
        host.substring(host.length - domain.length) === domain;
}
function shExpMatch(str, shexp) {
    var re = new RegExp('^' + shexp.replace(/\./g, '\\.').replace(/\*/g, '.*').replace(/\?/g, '.') + '$', 'i');
    return re.test(str);
}
function isInNet(host, pattern, mask) { return false; }
function myIpAddress() { return "127.0.0.1"; }
function dnsResolve(host) { return ""; }
function localHostOrDomainIs(host, hostdom) {
    return host === hostdom ||
        (host + '.') === hostdom.substring(0, hostdom.indexOf('.') + 1);
}
function isResolvable(host) { return true; }
function dnsDomainLevels(host) { return host.split('.').length - 1; }
function weekdayRange(wd1, wd2, gmt) { return true; }
function dateRange() { return true; }
function timeRange() { return true; }
"#;

/// The PAC helper definitions.
pub fn pac_helpers() -> (r: &'static str)
    ensures
        r@ == PAC_HELPERS@,
{
    PAC_HELPERS
}

/// The JavaScript expression that asks the PAC script about `url` and
/// `host`: `FindProxyForURL("url", "host")` with both quoted as Rust's
/// `Debug` quotes strings.
pub open spec fn pac_call_spec(url: Seq<char>, host: Seq<char>) -> Seq<char> {
    "FindProxyForURL("@ + debug_quoted(url) + ", "@ + debug_quoted(host) + ")"@
}

/// The `FindProxyForURL` call for a request.
pub fn pac_call_expression(url: &str, host: &str) -> (r: String)
    ensures
        r@ == pac_call_spec(url@, host@),
{
    let mut out = chars_of("FindProxyForURL(");
    let qu = debug_quote(url);
    push_str(&mut out, qu.as_str());
    push_str(&mut out, ", ");
    let qh = debug_quote(host);
    push_str(&mut out, qh.as_str());
    push_str(&mut out, ")");
    string_from_chars(out.as_slice())
}

#[verifier::external_type_specification]
#[verifier::external_body]
pub struct ExJsRuntime(rquickjs::Runtime);

#[verifier::external_type_specification]
#[verifier::external_body]
pub struct ExJsContext(rquickjs::Context);

/// Why a PAC script gave no answer.
#[derive(Debug, Clone, Copy, PartialEq, Eq, Structural)]
pub enum PacError {
    /// The JavaScript runtime or context could not be created.
    Runtime,
    /// The PAC script itself failed to evaluate.
    Script,
    /// Calling `FindProxyForURL` failed or did not return a string.
    Call,
}

/// How many times one PAC evaluation may poll its interrupt handler.
/// QuickJS polls it about once every 10 000 loop iterations and function
/// calls, so this allows some ten million of them: far more than a PAC
/// script takes, and an end to one that loops.
pub const MAX_INTERRUPT_POLLS: u64 = 1_000;

/// One poll of the engine's interrupt handler, with `polls` the polls
/// counted so far: counts it and says whether to stop the script, which
/// happens once `MAX_INTERRUPT_POLLS` polls have been counted.
pub fn interrupt_budget_spent(polls: &mut u64) -> (stop: bool)
    ensures
        stop == (*old(polls) >= MAX_INTERRUPT_POLLS),
        *final(polls) == if *old(polls) >= MAX_INTERRUPT_POLLS {
            *old(polls)
        } else {
            (*old(polls) + 1) as u64
        },
{
    if *polls >= MAX_INTERRUPT_POLLS {
        true
    } else {
        *polls = *polls + 1;
        false
    }
}

/// `rquickjs::Runtime::new`.  Whether it succeeds depends on the machine;
/// nothing is promised.
#[verifier::external_body]
fn js_runtime() -> Option<rquickjs::Runtime> {
    rquickjs::Runtime::new().ok()
}

/// `Runtime::set_interrupt_handler` on `rt`, with a handler that counts
/// its polls from zero through `interrupt_budget_spent`.  From then on any
/// evaluation in `rt` that runs past the budget is stopped with an
/// uncatchable exception, so `Ctx::eval` returns an error instead of
/// running forever.
#[verifier::external_body]
fn js_limit_steps(rt: &rquickjs::Runtime) {
    let mut polls: u64 = 0;
    rt.set_interrupt_handler(Some(Box::new(move || interrupt_budget_spent(&mut polls))));
}

/// `rquickjs::Context::full` on `rt`.  Nothing is promised of the outcome.
#[verifier::external_body]
fn js_context(rt: &rquickjs::Runtime) -> Option<rquickjs::Context> {
    rquickjs::Context::full(rt).ok()
}

/// `Ctx::eval::<()>` of `code` in `ctx` (through `Context::with`): whether
/// the code ran without throwing.  The outcome depends on the code, which
/// may read the clock; nothing is promised.  It returns once the code ends,
/// or once the runtime's interrupt handler stops it (then `false`); without
/// such a handler a script that loops never returns.
#[verifier::external_body]
fn js_run(ctx: &rquickjs::Context, code: &str) -> bool {
    ctx.with(|c| c.eval::<(), _>(code).is_ok())
}

/// `Ctx::eval::<String>` of `code` in `ctx` (through `Context::with`): the
/// string the code evaluated to, if it did.  Nothing is promised.  It
/// returns once the code ends, or once the runtime's interrupt handler
/// stops it (then `None`); without such a handler a script that loops
/// never returns.
#[verifier::external_body]
fn js_eval_string(ctx: &rquickjs::Context, code: &str) -> Option<String> {
    ctx.with(|c| c.eval::<String, _>(code).ok())
}

/// The code one PAC evaluation runs, in order: the helper definitions, the
/// PAC script, and the `FindProxyForURL` call.
pub struct PacProgram {
    pub helpers: String,
    pub script: String,
    pub call: String,
}

/// The code that evaluating `script` for `url` and `host` runs.
pub fn pac_program(script: &str, url: &str, host: &str) -> (p: PacProgram)
    ensures
        p.helpers@ == PAC_HELPERS@,
        p.script@ == script@,
        p.call@ == pac_call_spec(url@, host@),
{
    PacProgram {
        helpers: pac_helpers().to_owned(),
        script: script.to_owned(),
        call: pac_call_expression(url, host),
    }
}

/// Runs `program` in a fresh QuickJS runtime whose interrupt handler stops
/// it after `MAX_INTERRUPT_POLLS` polls: the helpers (their failure is
/// ignored), then the script, then the call, whose string value is the
/// answer.  The answer is the script's: nothing about it is promised.
pub fn run_pac_program(program: &PacProgram) -> Result<String, PacError> {
    let rt = match js_runtime() {
        Some(rt) => rt,
        None => return Err(PacError::Runtime),
    };
    js_limit_steps(&rt);
    let ctx = match js_context(&rt) {
        Some(c) => c,
        None => return Err(PacError::Runtime),
    };
    let _helpers_ok = js_run(&ctx, program.helpers.as_str());
    if !js_run(&ctx, program.script.as_str()) {
        return Err(PacError::Script);
    }
    match js_eval_string(&ctx, program.call.as_str()) {
        Some(r) => Ok(r),
        None => Err(PacError::Call),
    }
}

/// Runs the PAC `script` and returns what `FindProxyForURL(url, host)`
/// evaluates to: `run_pac_program` of `pac_program(script, url, host)`.
/// The answer is the script's: nothing about it is promised.
pub fn evaluate_pac(script: &str, url: &str, host: &str) -> Result<String, PacError> {
    let program = pac_program(script, url, host);
    run_pac_program(&program)
}

// ─────────────────────────── network interfaces ───────────────────────────

/// Interfaces whose name marks them as loopback, tunnel or other virtual
/// links, which do not tell whether the network changed.
pub open spec fn is_virtual_interface(name: Seq<char>) -> bool {
    ||| starts_with(name, "lo"@)
    ||| starts_with(name, "llw"@)
    ||| starts_with(name, "anpi"@)
    ||| starts_with(name, "utun"@)
    ||| starts_with(name, "gif"@)
    ||| starts_with(name, "stf"@)
}

/// Whether an interface address entry counts towards the network
/// fingerprint: not a virtual interface and not an IPv6 address.
pub open spec fn is_tracked_interface_spec(name: Seq<char>, is_ipv6: bool) -> bool {
    !is_virtual_interface(name) && !is_ipv6
}

/// Whether the interface address entry `name` (IPv6 when `is_ipv6`) counts
/// towards the network fingerprint.
pub fn is_tracked_interface(name: &str, is_ipv6: bool) -> (r: bool)
    ensures
        r == is_tracked_interface_spec(name@, is_ipv6),
{
    let n = chars_of(name);
    let lo = chars_of("lo");
    let llw = chars_of("llw");
    let anpi = chars_of("anpi");
    let utun = chars_of("utun");
    let gif = chars_of("gif");
    let stf = chars_of("stf");
    let virt = chars_start_with(n.as_slice(), lo.as_slice()) || chars_start_with(
        n.as_slice(),
        llw.as_slice(),
    ) || chars_start_with(n.as_slice(), anpi.as_slice()) || chars_start_with(
        n.as_slice(),
        utun.as_slice(),
    ) || chars_start_with(n.as_slice(), gif.as_slice()) || chars_start_with(
        n.as_slice(),
        stf.as_slice(),
    );
    !virt && !is_ipv6
}

/// The names of the tracked entries among the interface address entries
/// `(name, is_ipv6)`, in order.
pub open spec fn tracked_names(entries: Seq<(Seq<char>, bool)>) -> Seq<Seq<char>> {
    entries.filter(|e: (Seq<char>, bool)| is_tracked_interface_spec(e.0, e.1)).map_values(
        |e: (Seq<char>, bool)| e.0,
    )
}

/// The names that the network fingerprint is computed from.
pub fn interface_names(entries: &[(String, bool)]) -> (r: Vec<String>)
    ensures
        r@.map_values(|s: String| s@) == tracked_names(
            entries@.map_values(|e: (String, bool)| (e.0@, e.1)),
        ),
{
    let ghost ev = entries@.map_values(|e: (String, bool)| (e.0@, e.1));
    let ghost pred = |e: (Seq<char>, bool)| is_tracked_interface_spec(e.0, e.1);
    let mut r: Vec<String> = Vec::new();
    let n = entries.len();
    for i in 0..n
        invariant
            n == entries@.len(),
            ev == entries@.map_values(|e: (String, bool)| (e.0@, e.1)),
            pred == (|e: (Seq<char>, bool)| is_tracked_interface_spec(e.0, e.1)),
            r@.map_values(|s: String| s@) == ev.take(i as int).filter(pred).map_values(
                |e: (Seq<char>, bool)| e.0,
            ),
    {
        proof {
            reveal_with_fuel(Seq::<_>::filter, 1);
            assert(ev.take(i + 1).drop_last() =~= ev.take(i as int));
        }
        let (name, ipv6) = (&entries[i].0, entries[i].1);
        let ghost old_r = r@;
        if is_tracked_interface(name.as_str(), ipv6) {
            r.push(name.clone());
            assert(r@.map_values(|s: String| s@) =~= old_r.map_values(|s: String| s@).push(
                name@,
            ));
        }
    }
    assert(ev.take(n as int) =~= ev);
    r
}

/// The names the network fingerprint is computed from, sorted.
pub open spec fn fingerprint_names_spec(entries: Seq<(Seq<char>, bool)>) -> Seq<Seq<char>> {
    tracked_names(entries).sort_by(text_order())
}

/// The tracked interface names in the order `Vec<String>::sort` puts them.
pub fn fingerprint_names(entries: &[(String, bool)]) -> (r: Vec<String>)
    ensures
        r@.map_values(|s: String| s@) == fingerprint_names_spec(
            entries@.map_values(|e: (String, bool)| (e.0@, e.1)),
        ),
{
    let names = interface_names(entries);
    sort_texts(&names)
}

/// The writes the network fingerprint feeds its hasher: for each name its
/// UTF-8 bytes, then the byte `0xFF` (which UTF-8 text never holds, so
/// different name lists give different writes).
pub open spec fn fingerprint_writes(names: Seq<Seq<char>>) -> Seq<Seq<u8>>
    decreases names.len(),
{
    if names.len() == 0 {
        seq![]
    } else {
        fingerprint_writes(names.drop_last()).push(encode_utf8(names.last())).push(seq![0xFFu8])
    }
}

/// The network fingerprint: `DefaultHasher` after the `fingerprint_writes`
/// of the sorted tracked names, or after the single byte 0 when the
/// interfaces could not be listed (`None`).
pub open spec fn network_fingerprint_spec(entries: Option<Seq<(Seq<char>, bool)>>) -> u64 {
    match entries {
        Some(es) => DefaultHasher::spec_finish(fingerprint_writes(fingerprint_names_spec(es))),
        None => DefaultHasher::spec_finish(seq![seq![0u8]]),
    }
}

/// The network fingerprint of the interface address entries (`None` when
/// they could not be listed).  A change of fingerprint means the VPN came
/// up or went down.
pub fn hash_network_interfaces(entries: Option<&[(String, bool)]>) -> (r: u64)
    ensures
        r == network_fingerprint_spec(
            match entries {
                Some(es) => Some(es@.map_values(|e: (String, bool)| (e.0@, e.1))),
                None => None,
            },
        ),
{
    let mut hasher = DefaultHasher::new();
    match entries {
        Some(es) => {
            let names = fingerprint_names(es);
            let ghost nv = names@.map_values(|s: String| s@);
            let sep: Vec<u8> = vec![0xFFu8];
            let n = names.len();
            assert(nv.take(0) =~= Seq::<Seq<char>>::empty());
            for i in 0..n
                invariant
                    n == names@.len(),
                    nv == names@.map_values(|s: String| s@),
                    sep@ == seq![0xFFu8],
                    hasher@ == fingerprint_writes(nv.take(i as int)),
            {
                let name = names[i].as_str();
                assert(nv.take(i + 1).drop_last() =~= nv.take(i as int));
                assert(nv.take(i + 1).last() == name@);
                hasher.write(name.as_bytes());
                hasher.write(sep.as_slice());
            }
            assert(nv.take(n as int) =~= nv);
            assert(nv == fingerprint_names_spec(es@.map_values(|e: (String, bool)| (e.0@, e.1))));
        },
        None => {
            let zero: Vec<u8> = vec![0u8];
            hasher.write(zero.as_slice());
            assert(zero@ =~= seq![0u8]);
            assert(hasher@ =~~= seq![seq![0u8]]);
        },
    }
    hasher.finish()
}

/// The fingerprint depends only on which entries there are, not on their
/// order.
pub proof fn lemma_fingerprint_ignores_order(a: Seq<(Seq<char>, bool)>, b: Seq<(Seq<char>, bool)>)
    requires
        a.to_multiset() == b.to_multiset(),
    ensures
        fingerprint_names_spec(a) == fingerprint_names_spec(b),
        network_fingerprint_spec(Some(a)) == network_fingerprint_spec(Some(b)),
{
    assert forall|x: Seq<char>| #[trigger] tracked_names(a).to_multiset().count(x)
        == tracked_names(b).to_multiset().count(x) by {
        lemma_tracked_names_count(a, x);
        lemma_tracked_names_count(b, x);
    }
    assert(tracked_names(a).to_multiset() =~= tracked_names(b).to_multiset());
    lemma_text_order_total();
    tracked_names(a).lemma_sort_by_ensures(text_order());
    tracked_names(b).lemma_sort_by_ensures(text_order());
    lemma_sorted_unique(
        tracked_names(a).sort_by(text_order()),
        tracked_names(b).sort_by(text_order()),
        text_order(),
    );
}

/// How often a name occurs among the tracked names: as often as it occurs
/// as an IPv4 entry, when the interface is not virtual.
proof fn lemma_tracked_names_count(s: Seq<(Seq<char>, bool)>, x: Seq<char>)
    ensures
        tracked_names(s).to_multiset().count(x) == if is_virtual_interface(x) {
            0
        } else {
            s.to_multiset().count((x, false))
        },
    decreases s.len(),
{
    broadcast use group_to_multiset_ensures;

    if s.len() == 0 {
        assert(tracked_names(s) =~= Seq::<Seq<char>>::empty());
    } else {
        let pred = |e: (Seq<char>, bool)| is_tracked_interface_spec(e.0, e.1);
        let name = |e: (Seq<char>, bool)| e.0;
        let t = s.drop_last();
        let e = s.last();
        lemma_tracked_names_count(t, x);
        reveal_with_fuel(Seq::<_>::filter, 1);
        assert(s =~= t.push(e));
        assert(s.filter(pred) == if pred(e) {
            t.filter(pred).push(e)
        } else {
            t.filter(pred)
        });
        if pred(e) {
            assert(t.filter(pred).push(e).map_values(name) =~= t.filter(pred).map_values(
                name,
            ).push(e.0));
        }
    }
}

// ─────────────────────────────── the engine ───────────────────────────────

/// Whether the PAC URL answered the last time it was fetched.
#[derive(Debug, Clone, Copy, PartialEq, Eq, Structural)]
pub enum PacState {
    /// The PAC script is loaded (the VPN is up).
    Healthy,
    /// The PAC URL cannot be fetched: every request goes DIRECT.
    Unreachable,
}

/// One remembered answer: host, PAC result, when it was computed.
pub type HostEntry = (Seq<char>, Seq<char>, u64);

/// Position of the first entry for `host`, or -1.
pub open spec fn host_index(entries: Seq<HostEntry>, host: Seq<char>) -> int
    decreases entries.len(),
{
    if entries.len() == 0 {
        -1
    } else if entries[0].0 == host {
        0
    } else {
        let r = host_index(entries.drop_first(), host);
        if r < 0 {
            -1
        } else {
            r + 1
        }
    }
}

/// `host_index` is the first position holding `host`.
pub proof fn lemma_host_index(entries: Seq<HostEntry>, host: Seq<char>)
    ensures
        -1 <= host_index(entries, host) < entries.len(),
        host_index(entries, host) >= 0 ==> entries[host_index(entries, host)].0 == host,
        forall|j: int|
            0 <= j < entries.len() && (host_index(entries, host) < 0 || j < host_index(
                entries,
                host,
            )) ==> entries[j].0 != host,
    decreases entries.len(),
{
    if entries.len() > 0 && entries[0].0 != host {
        lemma_host_index(entries.drop_first(), host);
        assert forall|j: int|
            0 <= j < entries.len() && (host_index(entries, host) < 0 || j < host_index(
                entries,
                host,
            )) implies entries[j].0 != host by {
            if j > 0 {
                assert(entries[j] == entries.drop_first()[j - 1]);
            }
        }
    }
}

/// Characterises `host_index` by the first position holding `host`.
pub proof fn lemma_host_index_is(entries: Seq<HostEntry>, host: Seq<char>, i: int)
    requires
        0 <= i <= entries.len(),
        forall|j: int| 0 <= j < i ==> entries[j].0 != host,
        i < entries.len() ==> entries[i].0 == host,
    ensures
        host_index(entries, host) == if i < entries.len() {
            i
        } else {
            -1
        },
{
    lemma_host_index(entries, host);
    if host_index(entries, host) >= 0 {
        assert(host_index(entries, host) >= i);
    }
}

/// The remembered answer for `host` and when it was computed.
pub open spec fn host_lookup(entries: Seq<HostEntry>, host: Seq<char>) -> Option<(Seq<char>, u64)> {
    let i = host_index(entries, host);
    if i < 0 {
        None
    } else {
        Some((entries[i].1, entries[i].2))
    }
}

/// `entries` with the answer for `host` replaced by (or extended with)
/// `result` at `stamp`.
pub open spec fn host_insert(entries: Seq<HostEntry>, host: Seq<char>, result: Seq<char>, stamp: u64) -> Seq<
    HostEntry,
> {
    let i = host_index(entries, host);
    if i < 0 {
        entries.push((host, result, stamp))
    } else {
        entries.update(i, (host, result, stamp))
    }
}

/// After an insert, `host` maps to the new answer and every other host keeps
/// its answer.
pub proof fn lemma_host_insert(
    entries: Seq<HostEntry>,
    host: Seq<char>,
    result: Seq<char>,
    stamp: u64,
    other: Seq<char>,
)
    ensures
        host_lookup(host_insert(entries, host, result, stamp), host) == Some((result, stamp)),
        other != host ==> host_lookup(host_insert(entries, host, result, stamp), other)
            == host_lookup(entries, other),
{
    lemma_host_index(entries, host);
    lemma_host_index(entries, other);
    let e2 = host_insert(entries, host, result, stamp);
    let i = host_index(entries, host);
    if i < 0 {
        lemma_host_index_is(e2, host, entries.len() as int);
        if other != host {
            let k = host_index(entries, other);
            if k < 0 {
                lemma_host_index_is(e2, other, e2.len() as int);
            } else {
                lemma_host_index_is(e2, other, k);
            }
        }
    } else {
        lemma_host_index_is(e2, host, i);
        if other != host {
            let k = host_index(entries, other);
            if k < 0 {
                lemma_host_index_is(e2, other, e2.len() as int);
            } else {
                lemma_host_index_is(e2, other, k);
            }
        }
    }
}

/// No host has two remembered answers.
pub open spec fn hosts_distinct(entries: Seq<HostEntry>) -> bool {
    forall|i: int, j: int|
        0 <= i < j < entries.len() ==> #[trigger] entries[i].0 != #[trigger] entries[j].0
}

/// Remembering an answer never gives a host a second entry.
pub proof fn lemma_host_insert_keeps_distinct(
    entries: Seq<HostEntry>,
    host: Seq<char>,
    result: Seq<char>,
    stamp: u64,
)
    requires
        hosts_distinct(entries),
    ensures
        hosts_distinct(host_insert(entries, host, result, stamp)),
{
    lemma_host_index(entries, host);
    let e2 = host_insert(entries, host, result, stamp);
    assert forall|i: int, j: int| 0 <= i < j < e2.len() implies #[trigger] e2[i].0 != #[trigger] e2[
        j
    ].0 by {
        if host_index(entries, host) < 0 {
            if j == entries.len() {
                assert(entries[i].0 != host);
            } else {
                assert(entries[i].0 != entries[j].0);
            }
        } else {
            let k = host_index(entries, host);
            if i == k {
                assert(entries[k].0 != entries[j].0);
            } else if j == k {
                assert(entries[i].0 != entries[k].0);
            } else {
                assert(entries[i].0 != entries[j].0);
            }
        }
    }
}

/// A PAC time stamp is older than the lifetime (`Instant::elapsed() >
/// ttl`): more than `ttl_secs` seconds have passed since `stamp`.
pub open spec fn elapsed_nanos(stamp: u64, now: u64) -> int {
    if now >= stamp {
        now - stamp
    } else {
        0
    }
}

/// The PAC engine's mathematical state.
pub struct PacModel {
    pub pac_url: Option<Seq<char>>,
    pub direct_proxy: Option<Seq<char>>,
    pub script: Option<Seq<char>>,
    pub fetched_at: Option<u64>,
    pub ttl_secs: u64,
    pub state: PacState,
    pub last_ifaddrs_hash: u64,
    pub hosts: Seq<HostEntry>,
}

/// What to do next in a PAC lookup.
pub enum PacStep<S> {
    /// Fetch the PAC script from this URL.
    Fetch(S),
    /// Run this script's `FindProxyForURL` for the request.
    Evaluate(S),
    /// The lookup's answer (a PAC result such as `DIRECT`).
    Answer(Result<S, PacError>),
}

impl View for PacStep<String> {
    type V = PacStep<Seq<char>>;

    open spec fn view(&self) -> PacStep<Seq<char>> {
        match self {
            PacStep::Fetch(u) => PacStep::Fetch(u@),
            PacStep::Evaluate(s) => PacStep::Evaluate(s@),
            PacStep::Answer(Ok(r)) => PacStep::Answer(Ok(r@)),
            PacStep::Answer(Err(e)) => PacStep::Answer(Err(*e)),
        }
    }
}

/// The PAC script is missing or older than its lifetime.
pub open spec fn script_expired(m: PacModel, now: u64) -> bool {
    let stale = match m.fetched_at {
        None => true,
        Some(t) => elapsed_nanos(t, now) > m.ttl_secs * 1_000_000_000,
    };
    stale || m.script is None
}

/// The state after noticing the interface fingerprint `hash`: a changed
/// network forgets reachability, the script's age and every answer.
pub open spec fn after_network_check(m: PacModel, hash: u64) -> PacModel {
    if hash != m.last_ifaddrs_hash {
        PacModel {
            state: PacState::Healthy,
            fetched_at: None,
            hosts: seq![],
            last_ifaddrs_hash: hash,
            ..m
        }
    } else {
        m
    }
}

/// The answer once the script is as loaded as it gets: DIRECT when the PAC
/// URL is unreachable, the remembered answer while it is fresh, else the
/// script must run.
pub open spec fn answer_after_load(m: PacModel, host: Seq<char>, now: u64) -> PacStep<Seq<char>> {
    if m.state == PacState::Unreachable {
        PacStep::Answer(Ok("DIRECT"@))
    } else {
        match host_lookup(m.hosts, host) {
            Some((r, t)) => if elapsed_nanos(t, now) < m.ttl_secs * 1_000_000_000 {
                PacStep::Answer(Ok(r))
            } else {
                PacStep::Evaluate(
                    match m.script {
                        Some(s) => s,
                        None => seq![],
                    },
                )
            },
            None => PacStep::Evaluate(
                match m.script {
                    Some(s) => s,
                    None => seq![],
                },
            ),
        }
    }
}

/// Starting a lookup for `host` with the current interface fingerprint
/// `hash`: a static proxy answers at once when no PAC URL is configured;
/// otherwise the network is checked and the script fetched when it is
/// missing or stale.
pub open spec fn begin_spec(m: PacModel, host: Seq<char>, hash: u64, now: u64) -> (PacModel, PacStep<
    Seq<char>,
>) {
    if m.pac_url is None && m.direct_proxy is Some {
        (m, PacStep::Answer(Ok("PROXY "@ + m.direct_proxy->0)))
    } else {
        let m1 = after_network_check(m, hash);
        if script_expired(m1, now) && m1.pac_url is Some {
            (m1, PacStep::Fetch(m1.pac_url->0))
        } else {
            (m1, answer_after_load(m1, host, now))
        }
    }
}

/// The state after a fetch that returned `fetched` (`None` on failure).
pub open spec fn after_fetch_model(m: PacModel, fetched: Option<Seq<char>>, now: u64) -> PacModel {
    match fetched {
        Some(s) => PacModel {
            script: Some(s),
            fetched_at: Some(now),
            hosts: seq![],
            state: PacState::Healthy,
            ..m
        },
        None => PacModel { state: PacState::Unreachable, ..m },
    }
}

/// The state after the script answered `result` for `host`.
pub open spec fn after_evaluate_model(
    m: PacModel,
    host: Seq<char>,
    result: Result<Seq<char>, PacError>,
    now: u64,
) -> PacModel {
    match result {
        Ok(r) => PacModel { hosts: host_insert(m.hosts, host, r, now), ..m },
        Err(_) => m,
    }
}

/// Decides the upstream proxy for each request from a PAC script, a static
/// proxy, and the answers it remembers per host.
pub struct PacEngine {
    pac_url: Option<String>,
    direct_proxy: Option<String>,
    script: Option<String>,
    fetched_at: Option<u64>,
    ttl_secs: u64,
    state: PacState,
    last_ifaddrs_hash: u64,
    hosts: Vec<(String, String, u64)>,
}

pub open spec fn opt_str_view(o: Option<String>) -> Option<Seq<char>> {
    match o {
        Some(s) => Some(s@),
        None => None,
    }
}

impl View for PacEngine {
    type V = PacModel;

    closed spec fn view(&self) -> PacModel {
        PacModel {
            pac_url: opt_str_view(self.pac_url),
            direct_proxy: opt_str_view(self.direct_proxy),
            script: opt_str_view(self.script),
            fetched_at: self.fetched_at,
            ttl_secs: self.ttl_secs,
            state: self.state,
            last_ifaddrs_hash: self.last_ifaddrs_hash,
            hosts: self.hosts@.map_values(|e: (String, String, u64)| (e.0@, e.1@, e.2)),
        }
    }
}

impl PacEngine {
    /// The remembered answers name each host once.
    #[verifier::type_invariant]
    spec fn wf(self) -> bool {
        hosts_distinct(self@.hosts)
    }

    /// An engine for `cfg`, on a network whose interface fingerprint is
    /// `interfaces_hash`.
    pub fn new(cfg: &Config, interfaces_hash: u64) -> (e: Self)
        ensures
            e@.pac_url == opt_str_view(cfg.proxy.pac),
            e@.direct_proxy == opt_str_view(cfg.proxy.proxy),
            e@.script is None,
            e@.fetched_at is None,
            e@.ttl_secs == cfg.pac.cache_ttl,
            e@.state == PacState::Healthy,
            e@.last_ifaddrs_hash == interfaces_hash,
            e@.hosts.len() == 0,
    {
        let e = PacEngine {
            pac_url: cfg.proxy.pac.clone(),
            direct_proxy: cfg.proxy.proxy.clone(),
            script: None,
            fetched_at: None,
            ttl_secs: cfg.pac.cache_ttl,
            state: PacState::Healthy,
            last_ifaddrs_hash: interfaces_hash,
            hosts: Vec::new(),
        };
        assert(e@.hosts =~= Seq::<HostEntry>::empty());
        e
    }

    /// Notices the interface fingerprint `new_hash`; on a change (VPN up or
    /// down) forgets reachability, the script's age and every answer.
    pub fn detect_network_change(&mut self, new_hash: u64)
        ensures
            final(self)@ == after_network_check(old(self)@, new_hash),
    {
        proof {
            use_type_invariant(&*self);
        }
        if new_hash != self.last_ifaddrs_hash {
            self.state = PacState::Healthy;
            self.fetched_at = None;
            self.hosts = Vec::new();
            self.last_ifaddrs_hash = new_hash;
            assert(self@.hosts =~= Seq::<HostEntry>::empty());
        }
    }

    fn expired(&self, now: u64) -> (r: bool)
        ensures
            r == script_expired(self@, now),
    {
        let old = match self.fetched_at {
            None => true,
            Some(t) => {
                let el: u64 = if now >= t {
                    now - t
                } else {
                    0
                };
                (el as u128) > (self.ttl_secs as u128) * 1_000_000_000
            },
        };
        old || self.script.is_none()
    }

    fn find_host(&self, host: &str) -> (r: Option<usize>)
        ensures
            match r {
                Some(i) => i == host_index(self@.hosts, host@) && i < self.hosts@.len(),
                None => host_index(self@.hosts, host@) < 0,
            },
    {
        let ghost hs = self@.hosts;
        let h = host.to_owned();
        let n = self.hosts.len();
        for i in 0..n
            invariant
                n == self.hosts@.len(),
                hs == self@.hosts,
                hs == self.hosts@.map_values(|e: (String, String, u64)| (e.0@, e.1@, e.2)),
                h@ == host@,
                forall|j: int| 0 <= j < i ==> hs[j].0 != host@,
        {
            assert(hs[i as int] == (self.hosts@[i as int].0@, self.hosts@[i as int].1@, self.hosts@[i as int].2));
            if self.hosts[i].0 == h {
                proof {
                    lemma_host_index_is(hs, host@, i as int);
                }
                return Some(i);
            }
        }
        proof {
            lemma_host_index_is(hs, host@, n as int);
        }
        None
    }

    fn answer(&self, host: &str, now: u64) -> (r: PacStep<String>)
        ensures
            r@ == answer_after_load(self@, host@, now),
    {
        if self.state == PacState::Unreachable {
            return PacStep::Answer(Ok("DIRECT".to_owned()));
        }
        let script = match &self.script {
            Some(s) => s.clone(),
            None => String::new(),
        };
        match self.find_host(host) {
            Some(i) => {
                let (r, t) = (&self.hosts[i].1, self.hosts[i].2);
                let el: u64 = if now >= t {
                    now - t
                } else {
                    0
                };
                if (el as u128) < (self.ttl_secs as u128) * 1_000_000_000 {
                    PacStep::Answer(Ok(r.clone()))
                } else {
                    PacStep::Evaluate(script)
                }
            },
            None => PacStep::Evaluate(script),
        }
    }

    /// Starts the lookup for `host`; `interfaces_hash` is the current
    /// network fingerprint and `now` the current time.
    pub fn begin(&mut self, host: &str, interfaces_hash: u64, now: u64) -> (r: PacStep<String>)
        ensures
            (final(self)@, r@) == begin_spec(old(self)@, host@, interfaces_hash, now),
    {
        if self.pac_url.is_none() {
            if let Some(up) = &self.direct_proxy {
                let mut out = chars_of("PROXY ");
                push_str(&mut out, up.as_str());
                return PacStep::Answer(Ok(string_from_chars(out.as_slice())));
            }
        }
        self.detect_network_change(interfaces_hash);
        if self.expired(now) {
            if let Some(url) = &self.pac_url {
                return PacStep::Fetch(url.clone());
            }
        }
        self.answer(host, now)
    }

    /// Continues the lookup for `host` after the fetch returned `fetched`
    /// (`None` when the PAC URL could not be fetched).
    pub fn after_fetch(&mut self, host: &str, fetched: Option<String>, now: u64) -> (r: PacStep<
        String,
    >)
        ensures
            final(self)@ == after_fetch_model(old(self)@, opt_str_view(fetched), now),
            r@ == answer_after_load(final(self)@, host@, now),
    {
        proof {
            use_type_invariant(&*self);
        }
        match fetched {
            Some(script) => {
                self.script = Some(script);
                self.fetched_at = Some(now);
                self.hosts = Vec::new();
                self.state = PacState::Healthy;
                assert(self@.hosts =~= Seq::<HostEntry>::empty());
            },
            None => {
                self.state = PacState::Unreachable;
            },
        }
        self.answer(host, now)
    }

    /// Finishes the lookup for `host` with the script's `result`,
    /// remembering a successful answer.
    pub fn after_evaluate(&mut self, host: &str, result: Result<String, PacError>, now: u64) -> (r:
        PacStep<String>)
        ensures
            final(self)@ == after_evaluate_model(
                old(self)@,
                host@,
                match result {
                    Ok(s) => Ok(s@),
                    Err(e) => Err(e),
                },
                now,
            ),
            r@ == PacStep::<Seq<char>>::Answer(
                match result {
                    Ok(s) => Ok(s@),
                    Err(e) => Err(e),
                },
            ),
    {
        proof {
            use_type_invariant(&*self);
        }
        match result {
            Ok(r) => {
                let ghost old_hosts = self@.hosts;
                proof {
                    lemma_host_insert_keeps_distinct(old_hosts, host@, r@, now);
                }
                let found = self.find_host(host);
                let mut hosts: Vec<(String, String, u64)> = Vec::new();
                std::mem::swap(&mut hosts, &mut self.hosts);
                assert(hosts@.map_values(|e: (String, String, u64)| (e.0@, e.1@, e.2))
                    == old_hosts);
                match found {
                    Some(i) => {
                        proof {
                            lemma_host_index(old_hosts, host@);
                        }
                        hosts.set(i, (host.to_owned(), r.clone(), now));
                        assert(hosts@.map_values(|e: (String, String, u64)| (e.0@, e.1@, e.2))
                            =~= old_hosts.update(i as int, (host@, r@, now)));
                    },
                    None => {
                        hosts.push((host.to_owned(), r.clone(), now));
                        assert(hosts@.map_values(|e: (String, String, u64)| (e.0@, e.1@, e.2))
                            =~= old_hosts.push((host@, r@, now)));
                    },
                }
                self.hosts = hosts;
                PacStep::Answer(Ok(r))
            },
            Err(e) => PacStep::Answer(Err(e)),
        }
    }
}

// ─────────────────────────────── laws ───────────────────────────────

/// Without a PAC URL a configured static proxy answers every lookup, and
/// the engine is left as it was.
pub proof fn lemma_static_proxy_answers(m: PacModel, host: Seq<char>, hash: u64, now: u64)
    requires
        m.pac_url is None,
        m.direct_proxy is Some,
    ensures
        begin_spec(m, host, hash, now) == (m, PacStep::Answer(Ok("PROXY "@ + m.direct_proxy->0))),
{
}

/// When a PAC URL is configured the static proxy plays no part: a lookup
/// goes exactly as it would were no static proxy configured.
pub proof fn lemma_pac_takes_precedence(m: PacModel, host: Seq<char>, hash: u64, now: u64)
    requires
        m.pac_url is Some,
    ensures
        begin_spec(m, host, hash, now).1 == begin_spec(
            PacModel { direct_proxy: None, ..m },
            host,
            hash,
            now,
        ).1,
{
}

/// Once the PAC script is older than its lifetime the next lookup fetches
/// it again.
pub proof fn lemma_stale_script_refetched(m: PacModel, host: Seq<char>, now: u64)
    requires
        m.pac_url is Some,
        m.fetched_at matches Some(t) && elapsed_nanos(t, now) > m.ttl_secs * 1_000_000_000,
    ensures
        begin_spec(m, host, m.last_ifaddrs_hash, now).1 == PacStep::Fetch(m.pac_url->0),
{
}

/// When the PAC URL cannot be fetched the engine becomes unreachable and
/// the request goes DIRECT.
pub proof fn lemma_unreachable_goes_direct(m: PacModel, host: Seq<char>, now: u64)
    ensures
        after_fetch_model(m, None, now).state == PacState::Unreachable,
        answer_after_load(after_fetch_model(m, None, now), host, now) == PacStep::<
            Seq<char>,
        >::Answer(Ok("DIRECT"@)),
{
}

/// A change of network makes the next lookup fetch the PAC script again
/// (when a PAC URL is configured).
pub proof fn lemma_network_change_refetches(m: PacModel, host: Seq<char>, hash: u64, now: u64)
    requires
        m.pac_url is Some,
        hash != m.last_ifaddrs_hash,
    ensures
        begin_spec(m, host, hash, now).1 == PacStep::Fetch(m.pac_url->0),
        begin_spec(m, host, hash, now).0.state == PacState::Healthy,
        begin_spec(m, host, hash, now).0.hosts.len() == 0,
{
}

/// A fresh script is not fetched again.
pub proof fn lemma_fresh_script_not_refetched(m: PacModel, host: Seq<char>, now: u64)
    requires
        m.script is Some,
        m.fetched_at matches Some(t) && elapsed_nanos(t, now) <= m.ttl_secs * 1_000_000_000,
        !(m.pac_url is None && m.direct_proxy is Some),
    ensures
        !(begin_spec(m, host, m.last_ifaddrs_hash, now).1 is Fetch),
{
}

/// An answer the script gave for a host is reused for that host while it
/// is fresh, as long as the script is fresh and the network unchanged.
pub proof fn lemma_answer_reused(
    m: PacModel,
    host: Seq<char>,
    result: Seq<char>,
    t0: u64,
    now: u64,
)
    requires
        m.state == PacState::Healthy,
        m.pac_url is Some,
        m.script is Some,
        m.fetched_at matches Some(t) && elapsed_nanos(t, now) <= m.ttl_secs * 1_000_000_000,
        t0 <= now,
        now - t0 < m.ttl_secs * 1_000_000_000,
    ensures
        begin_spec(
            after_evaluate_model(m, host, Ok(result), t0),
            host,
            m.last_ifaddrs_hash,
            now,
        ).1 == PacStep::<Seq<char>>::Answer(Ok(result)),
{
    lemma_host_insert(m.hosts, host, result, t0, host);
}

/// A PAC entry (trimmed) that names an upstream proxy: it begins with
/// `PROXY `, `proxy `, `HTTPS ` or `https `.
pub open spec fn names_upstream_proxy(d: Seq<char>) -> bool {
    ||| starts_with(d, "PROXY "@)
    ||| starts_with(d, "proxy "@)
    ||| starts_with(d, "HTTPS "@)
    ||| starts_with(d, "https "@)
}

/// A PAC result sends a request through a proxy only as one of its entries
/// says: some entry, trimmed, begins with a proxy keyword and the address
/// is what follows the keyword, trimmed.
pub proof fn lemma_proxy_answer_comes_from_proxy_entry(pieces: Seq<Seq<char>>)
    ensures
        directive_of(pieces) matches ProxyDirective::Proxy(addr) ==> exists|i: int|
            0 <= i < pieces.len() && names_upstream_proxy(trim_seq(#[trigger] pieces[i])) && addr
                == trim_seq(trim_seq(pieces[i]).skip(6)),
    decreases pieces.len(),
{
    if pieces.len() > 0 {
        let d = trim_seq(pieces[0]);
        assert(pieces =~= seq![pieces[0]] + pieces.drop_first());
        lemma_directive_cons(pieces[0], pieces.drop_first());
        lemma_proxy_answer_comes_from_proxy_entry(pieces.drop_first());
        match directive_of(pieces) {
            ProxyDirective::Proxy(addr) => {
                if !eq_ignore_ascii_case(d, "DIRECT"@) && proxy_keyword_rest(d) is Some {
                    assert(names_upstream_proxy(trim_seq(pieces[0])));
                } else {
                    let rest = pieces.drop_first();
                    let i = choose|i: int|
                        0 <= i < rest.len() && names_upstream_proxy(trim_seq(#[trigger] rest[i]))
                            && addr == trim_seq(trim_seq(rest[i]).skip(6));
                    assert(pieces[i + 1] == rest[i]);
                }
            },
            ProxyDirective::Direct => {},
        }
    }
}

/// An entry that is neither `DIRECT` nor names a proxy (such as
/// `SOCKS5 host:port`) is skipped: the result is that of the entries after
/// it.
pub proof fn lemma_other_entry_skipped(piece: Seq<char>, rest: Seq<Seq<char>>)
    requires
        !eq_ignore_ascii_case(trim_seq(piece), "DIRECT"@),
        !names_upstream_proxy(trim_seq(piece)),
    ensures
        directive_of(seq![piece] + rest) == directive_of(rest),
{
    lemma_directive_cons(piece, rest);
}

/// A fetch that returns a script makes the engine healthy again, whatever
/// state it was in, and the lookup that follows runs that script.
pub proof fn lemma_fetched_script_heals(m: PacModel, script: Seq<char>, host: Seq<char>, now: u64)
    ensures
        after_fetch_model(m, Some(script), now).state == PacState::Healthy,
        after_fetch_model(m, Some(script), now).script == Some(script),
        answer_after_load(after_fetch_model(m, Some(script), now), host, now) == PacStep::<
            Seq<char>,
        >::Evaluate(script),
{
}

} // verus!
