//! The mathematical model of the cleaning pipeline: ghost views of the
//! compiled rule database and a spec-level run of the whole engine, step by
//! step, against which the executable code is proved.

use vstd::prelude::*;
use crate::matcher::{anchored_ci, re_delete_all, re_match, re_capture1, re_valid};
use crate::url_value::{
    parsed_view, pct_decoded, serial_with_params, url_ok, UrlView,
};

verus! {

/// The views of a sequence of owned strings.
pub open spec fn strs_view(ss: Seq<String>) -> Seq<Seq<char>> {
    ss.map_values(|s: String| s@)
}

/// Why a single `clean_url` call failed.
#[derive(Clone, Copy, Debug, PartialEq, Eq, Structural)]
pub enum CleanError {
    /// The input string is not a URL.
    Parse,
    /// A captured redirection target failed percent-decoding.
    RedirectDecode,
    /// A decoded redirection target is not a URL.
    RedirectParse,
    /// A raw rule rewrote the URL into something that no longer parses.
    RawRuleParse,
}

/// The rule field of a provider definition that failed to compile.
#[derive(Clone, Copy, Debug, PartialEq, Eq, Structural)]
pub enum RuleField {
    UrlPattern,
    Rules,
    RawRules,
    Exceptions,
    Redirections,
    ReferralMarketing,
}

/// The spec-level shape of a raw (uncompiled) provider definition.
#[verifier::ext_equal]
pub ghost struct ProviderView {
    pub url_pattern: Seq<char>,
    pub rules: Seq<Seq<char>>,
    pub raw_rules: Seq<Seq<char>>,
    pub exceptions: Seq<Seq<char>>,
    pub redirections: Seq<Seq<char>>,
    pub referral_marketing: Seq<Seq<char>>,
    pub complete_provider: bool,
    pub force_redirection: bool,
}

/// The spec-level shape of a compiled provider: pattern strings as the
/// matchers hold them. Parameter-name rules are anchored, case-insensitive.
#[verifier::ext_equal]
pub ghost struct ProviderModel {
    pub name: Seq<char>,
    pub url_pattern: Seq<char>,
    pub rules: Seq<Seq<char>>,
    pub raw_rules: Seq<Seq<char>>,
    pub exceptions: Seq<Seq<char>>,
    pub redirections: Seq<Seq<char>>,
    pub referral_marketing: Seq<Seq<char>>,
    pub complete_provider: bool,
    pub force_redirection: bool,
}

/// The spec-level shape of the caller's options.
#[verifier::ext_equal]
pub ghost struct OptionsView {
    pub skip_localhost: bool,
    pub apply_referral_marketing: bool,
    pub domain_blocking: bool,
    pub additional_blocked_params: Seq<Seq<char>>,
    pub blacklisted_domains: Seq<Seq<char>>,
}

/// What compiling one provider yields when every field compiles.
pub open spec fn compiled_model(name: Seq<char>, p: ProviderView) -> ProviderModel {
    ProviderModel {
        name,
        url_pattern: p.url_pattern,
        rules: p.rules.map_values(|r: Seq<char>| anchored_ci(r)),
        raw_rules: p.raw_rules,
        exceptions: p.exceptions,
        redirections: p.redirections,
        referral_marketing: p.referral_marketing.map_values(|r: Seq<char>| anchored_ci(r)),
        complete_provider: p.complete_provider,
        force_redirection: p.force_redirection,
    }
}

/// Whether every pattern in the list compiles verbatim.
pub open spec fn all_valid_plain(pats: Seq<Seq<char>>) -> bool {
    forall|i: int| 0 <= i < pats.len() ==> re_valid(#[trigger] pats[i])
}

/// Whether every pattern in the list compiles in its anchored,
/// case-insensitive form.
pub open spec fn all_valid_anchored(pats: Seq<Seq<char>>) -> bool {
    forall|i: int| 0 <= i < pats.len() ==> re_valid(anchored_ci(#[trigger] pats[i]))
}

/// Whether every pattern of the provider compiles.
pub open spec fn provider_compiles(p: ProviderView) -> bool {
    &&& re_valid(p.url_pattern)
    &&& all_valid_anchored(p.rules)
    &&& all_valid_plain(p.raw_rules)
    &&& all_valid_plain(p.exceptions)
    &&& all_valid_plain(p.redirections)
    &&& all_valid_anchored(p.referral_marketing)
}

/// The first provider field, in compilation order, holding a pattern that
/// does not compile.
pub open spec fn bad_field_of(p: ProviderView) -> RuleField {
    if !re_valid(p.url_pattern) {
        RuleField::UrlPattern
    } else if !all_valid_anchored(p.rules) {
        RuleField::Rules
    } else if !all_valid_plain(p.raw_rules) {
        RuleField::RawRules
    } else if !all_valid_plain(p.exceptions) {
        RuleField::Exceptions
    } else if !all_valid_plain(p.redirections) {
        RuleField::Redirections
    } else {
        RuleField::ReferralMarketing
    }
}

/// The compiled provider set of a rule database: database order, providers
/// that fail to compile dropped.
pub open spec fn compiled_providers(
    entries: Seq<(Seq<char>, ProviderView)>,
    i: int,
) -> Seq<ProviderModel>
    decreases entries.len() - i,
{
    if i < 0 || i >= entries.len() {
        Seq::empty()
    } else if provider_compiles(entries[i].1) {
        seq![compiled_model(entries[i].0, entries[i].1)] + compiled_providers(entries, i + 1)
    } else {
        compiled_providers(entries, i + 1)
    }
}

/// The spec-level shape of a whole cleaner: the compiled provider set and
/// the caller's options.
#[verifier::ext_equal]
pub ghost struct CleanerView {
    pub providers: Seq<ProviderModel>,
    pub options: OptionsView,
}

/// Whether the input already carries a scheme this engine recognizes.
pub open spec fn has_http_prefix(s: Seq<char>) -> bool {
    "https://"@.is_prefix_of(s) || "http://"@.is_prefix_of(s)
}

/// The input as it is parsed: `https://` is prepended when no scheme
/// prefix is there.
pub open spec fn normalized(s: Seq<char>) -> Seq<char> {
    if has_http_prefix(s) {
        s
    } else {
        "https://"@ + s
    }
}

/// Whether the host is localhost or in a private range.
pub open spec fn is_localhost_host(h: Seq<char>) -> bool {
    ||| h == "localhost"@
    ||| "127."@.is_prefix_of(h)
    ||| "192.168."@.is_prefix_of(h)
    ||| "10."@.is_prefix_of(h)
    ||| "172."@.is_prefix_of(h)
}

/// Whether the URL is left untouched: localhost (unless disabled) or a
/// blacklisted domain suffix.
pub open spec fn should_skip(opts: OptionsView, host: Seq<char>) -> bool {
    ||| (opts.skip_localhost && is_localhost_host(host))
    ||| exists|i: int|
        0 <= i < opts.blacklisted_domains.len() && (#[trigger] opts.blacklisted_domains[i])
            .is_suffix_of(host)
}

/// Whether some exception pattern matches the URL.
pub open spec fn has_exception(exceptions: Seq<Seq<char>>, serial: Seq<char>) -> bool {
    exists|i: int| 0 <= i < exceptions.len() && re_match(#[trigger] exceptions[i], serial)
}

/// A provider applies to a URL when its pattern matches and no exception
/// does.
pub open spec fn provider_active(p: ProviderModel, u: UrlView) -> bool {
    re_match(p.url_pattern, u.serial) && !has_exception(p.exceptions, u.serial)
}

/// The captured redirection target of the first redirection pattern, from
/// index `i` on, whose capture group 1 takes part in a match.
pub open spec fn first_redirect_from(
    redirections: Seq<Seq<char>>,
    serial: Seq<char>,
    i: int,
) -> Option<Seq<char>>
    decreases redirections.len() - i,
{
    if i < 0 || i >= redirections.len() {
        Option::None
    } else if re_capture1(redirections[i], serial) is Some {
        re_capture1(redirections[i], serial)
    } else {
        first_redirect_from(redirections, serial, i + 1)
    }
}

/// The label recorded for a resolved redirection.
pub open spec fn redirect_label(name: Seq<char>) -> Seq<char> {
    name + "_redirect"@
}

/// The label recorded for the raw rule at index `i`.
pub open spec fn raw_label(name: Seq<char>, i: int) -> Seq<char> {
    name + "_raw_"@ + crate::strutil::dec_digits(i as nat)
}

/// What applying raw rules from index `i` on yields.
pub ghost enum RawOutcome {
    Cleaned { url: UrlView, changed: bool, applied: Seq<Seq<char>> },
    Failed,
}

/// Raw-rule rewriting: each rule, in order, deletes every match from the
/// serialized URL; a change forces a re-parse, whose failure is fatal.
pub open spec fn apply_raw_from(
    name: Seq<char>,
    raws: Seq<Seq<char>>,
    u: UrlView,
    i: int,
) -> RawOutcome
    decreases raws.len() - i,
{
    if i < 0 || i >= raws.len() {
        RawOutcome::Cleaned { url: u, changed: false, applied: Seq::empty() }
    } else {
        let deleted = re_delete_all(raws[i], u.serial);
        if deleted == u.serial {
            apply_raw_from(name, raws, u, i + 1)
        } else if !url_ok(deleted) {
            RawOutcome::Failed
        } else {
            match apply_raw_from(name, raws, parsed_view(deleted), i + 1) {
                RawOutcome::Cleaned { url, changed, applied } => RawOutcome::Cleaned {
                    url,
                    changed: true,
                    applied: seq![raw_label(name, i)] + applied,
                },
                RawOutcome::Failed => RawOutcome::Failed,
            }
        }
    }
}

/// Whether some parameter-name rule removes the key.
pub open spec fn param_matches(rules: Seq<Seq<char>>, key: Seq<char>) -> bool {
    exists|j: int| 0 <= j < rules.len() && re_match(#[trigger] rules[j], key)
}

/// The query pairs no parameter-name rule removes, in their original order.
pub open spec fn surviving(
    params: Seq<(Seq<char>, Seq<char>)>,
    rules: Seq<Seq<char>>,
) -> Seq<(Seq<char>, Seq<char>)> {
    params.filter(|p: (Seq<char>, Seq<char>)| !param_matches(rules, p.0))
}

/// The parameter-name rules in force: the catalog rules, and the referral
/// marketing rules when the caller opted in.
pub open spec fn active_rules(p: ProviderModel, opts: OptionsView) -> Seq<Seq<char>> {
    if opts.apply_referral_marketing {
        p.rules + p.referral_marketing
    } else {
        p.rules
    }
}

/// Parameter stripping: the surviving pairs replace the query (the query is
/// dropped outright when none survives); nothing happens when no pair is
/// removed.
pub open spec fn apply_params_step(rules: Seq<Seq<char>>, u: UrlView) -> (UrlView, bool) {
    let surv = surviving(u.params, rules);
    if surv.len() == u.params.len() {
        (u, false)
    } else {
        (UrlView { serial: serial_with_params(u.serial, surv), host: u.host, params: surv }, true)
    }
}

/// The query pairs whose key is not on the caller's additional block-list
/// (exact, case-sensitive matching).
pub open spec fn surviving_additional(
    params: Seq<(Seq<char>, Seq<char>)>,
    blocked: Seq<Seq<char>>,
) -> Seq<(Seq<char>, Seq<char>)> {
    params.filter(|p: (Seq<char>, Seq<char>)| !blocked.contains(p.0))
}

/// The post-processing step: the caller's additional block-list, applied
/// independently of any provider.
pub open spec fn apply_additional_step(blocked: Seq<Seq<char>>, u: UrlView) -> (UrlView, bool) {
    if blocked.len() == 0 {
        (u, false)
    } else {
        let surv = surviving_additional(u.params, blocked);
        if surv.len() == u.params.len() {
            (u, false)
        } else {
            (
                UrlView {
                    serial: serial_with_params(u.serial, surv),
                    host: u.host,
                    params: surv,
                },
                true,
            )
        }
    }
}

/// What one provider does to one URL.
pub ghost enum StepOutcome {
    Cancelled,
    Redirected { url: UrlView },
    Cleaned { url: UrlView, changed: bool, applied: Seq<Seq<char>> },
    Failed { err: CleanError },
}

/// One provider's rules, in strict order: complete-provider blocking, then
/// redirection resolution, then raw-rule rewriting, then parameter
/// stripping; the first three can cut the rest short.
pub open spec fn apply_provider(p: ProviderModel, opts: OptionsView, u: UrlView) -> StepOutcome {
    if p.complete_provider && opts.domain_blocking {
        StepOutcome::Cancelled
    } else {
        match first_redirect_from(p.redirections, u.serial, 0) {
            Option::Some(cap) => match pct_decoded(cap) {
                Option::None => StepOutcome::Failed { err: CleanError::RedirectDecode },
                Option::Some(target) => if !url_ok(target) {
                    StepOutcome::Failed { err: CleanError::RedirectParse }
                } else {
                    StepOutcome::Redirected { url: parsed_view(target) }
                },
            },
            Option::None => match apply_raw_from(p.name, p.raw_rules, u, 0) {
                RawOutcome::Failed => StepOutcome::Failed { err: CleanError::RawRuleParse },
                RawOutcome::Cleaned { url, changed, applied } => {
                    let (u2, c2) = apply_params_step(active_rules(p, opts), url);
                    StepOutcome::Cleaned { url: u2, changed: changed || c2, applied }
                },
            },
        }
    }
}

/// Filtering a sequence extended by one element keeps the element exactly
/// when the predicate holds of it.
pub proof fn lemma_filter_one<A>(s: Seq<A>, x: A, pred: spec_fn(A) -> bool)
    ensures
        (s + seq![x]).filter(pred) == (if pred(x) {
            s.filter(pred).push(x)
        } else {
            s.filter(pred)
        }),
{
    reveal(Seq::filter);
    assert((s + seq![x]).drop_last() =~= s);
    assert((s + seq![x]).last() == x);
}

/// What a whole `clean_url` call yields.
pub ghost enum CleanOutcome {
    Done { url: UrlView, changed: bool, applied: Seq<Seq<char>> },
    Redirected { url: UrlView, applied: Seq<Seq<char>> },
    Cancelled { url: UrlView, applied: Seq<Seq<char>> },
    Failed { err: CleanError },
}

/// The provider loop from index `i` on: each active provider, in database
/// order, works on the URL the previous one left; a redirection or a
/// cancellation returns at once.
pub open spec fn run_from(
    providers: Seq<ProviderModel>,
    opts: OptionsView,
    u: UrlView,
    i: int,
    changed: bool,
    applied: Seq<Seq<char>>,
) -> CleanOutcome
    decreases providers.len() - i,
{
    if i < 0 || i >= providers.len() {
        CleanOutcome::Done { url: u, changed, applied }
    } else {
        let p = providers[i];
        if !provider_active(p, u) {
            run_from(providers, opts, u, i + 1, changed, applied)
        } else {
            let applied1 = applied.push(p.name);
            match apply_provider(p, opts, u) {
                StepOutcome::Cancelled => CleanOutcome::Cancelled { url: u, applied: applied1 },
                StepOutcome::Redirected { url } => CleanOutcome::Redirected {
                    url,
                    applied: applied1.push(redirect_label(p.name)),
                },
                StepOutcome::Failed { err } => CleanOutcome::Failed { err },
                StepOutcome::Cleaned { url, changed: c, applied: a } => run_from(
                    providers,
                    opts,
                    url,
                    i + 1,
                    changed || c,
                    applied1 + a,
                ),
            }
        }
    }
}

/// The label recorded when the additional block-list removed something.
pub open spec fn additional_label() -> Seq<char> {
    "additional_params"@
}

/// The whole pipeline: normalize, parse, skip-check, provider loop,
/// post-processing.
pub open spec fn spec_clean(
    providers: Seq<ProviderModel>,
    opts: OptionsView,
    input: Seq<char>,
) -> CleanOutcome {
    let n = normalized(input);
    if !url_ok(n) {
        CleanOutcome::Failed { err: CleanError::Parse }
    } else {
        let u0 = parsed_view(n);
        if should_skip(opts, u0.host) {
            CleanOutcome::Done { url: u0, changed: false, applied: Seq::empty() }
        } else {
            match run_from(providers, opts, u0, 0, false, Seq::empty()) {
                CleanOutcome::Done { url, changed, applied } => {
                    let (u2, c2) = apply_additional_step(opts.additional_blocked_params, url);
                    CleanOutcome::Done {
                        url: u2,
                        changed: changed || c2,
                        applied: if c2 {
                            applied.push(additional_label())
                        } else {
                            applied
                        },
                    }
                },
                outcome => outcome,
            }
        }
    }
}

} // verus!
