//! The cleaning engine: rule database types, pattern compilation, and the
//! `clean_url` pipeline, proved against the model in [`crate::model`].

use vstd::prelude::*;
use vstd::string::*;
use crate::matcher::{
    anchor_ci, anchored_ci, matcher_refs_view, matchers_view, re_capture1, re_match, re_valid,
    Matcher,
};
use crate::model::{
    active_rules, additional_label, all_valid_anchored, all_valid_plain, apply_additional_step,
    apply_params_step, apply_provider, apply_raw_from, bad_field_of, compiled_model,
    compiled_providers, first_redirect_from, has_exception, is_localhost_host, normalized,
    param_matches, provider_compiles, raw_label, redirect_label, run_from, should_skip,
    spec_clean, strs_view, surviving, surviving_additional, CleanError, CleanOutcome,
    CleanerView, OptionsView, ProviderModel, ProviderView, RawOutcome, RuleField, StepOutcome,
};
use crate::strutil::{str_ends_with, str_eq, str_starts_with};
use crate::url_value::{pairs_view, parsed_view, pct_decoded, url_ok, ParsedUrl};

verus! {

/// A provider definition as the rule database states it: pattern strings,
/// not yet compiled.
#[derive(Debug, Clone)]
pub struct Provider {
    /// A URL belongs to this provider iff this pattern matches it.
    pub url_pattern: String,
    /// Patterns matched against individual query-parameter names,
    /// case-insensitively, as a whole-string match.
    pub rules: Vec<String>,
    /// Patterns whose every match is deleted from the serialized URL.
    pub raw_rules: Vec<String>,
    /// Patterns that suppress the provider for a URL entirely.
    pub exceptions: Vec<String>,
    /// Patterns with one capture group naming the true destination.
    pub redirections: Vec<String>,
    /// Parameter-name patterns applied only when the caller opts in.
    pub referral_marketing: Vec<String>,
    /// When set, a match blocks the URL outright under domain blocking.
    pub complete_provider: bool,
    /// Carried through as data; acting on it is the browser's business.
    pub force_redirection: bool,
}

impl View for Provider {
    type V = ProviderView;

    open spec fn view(&self) -> ProviderView {
        ProviderView {
            url_pattern: self.url_pattern@,
            rules: strs_view(self.rules@),
            raw_rules: strs_view(self.raw_rules@),
            exceptions: strs_view(self.exceptions@),
            redirections: strs_view(self.redirections@),
            referral_marketing: strs_view(self.referral_marketing@),
            complete_provider: self.complete_provider,
            force_redirection: self.force_redirection,
        }
    }
}

/// A validated rule database: provider definitions by name, in the order
/// they are applied.
#[derive(Debug, Clone)]
pub struct ClearUrlsConfig {
    pub providers: Vec<(String, Provider)>,
}

impl View for ClearUrlsConfig {
    type V = Seq<(Seq<char>, ProviderView)>;

    open spec fn view(&self) -> Seq<(Seq<char>, ProviderView)> {
        self.providers@.map_values(|e: (String, Provider)| (e.0@, e.1@))
    }
}

/// Configuration options for URL cleaning.
#[derive(Debug, Clone)]
pub struct CleaningOptions {
    /// Whether to leave localhost and private-range URLs untouched.
    pub skip_localhost: bool,
    /// Whether to apply referral-marketing rules.
    pub apply_referral_marketing: bool,
    /// Whether complete providers block their URLs outright.
    pub domain_blocking: bool,
    /// Parameter names to always strip, matched exactly.
    pub additional_blocked_params: Vec<String>,
    /// Domain suffixes never to touch.
    pub blacklisted_domains: Vec<String>,
}

impl View for CleaningOptions {
    type V = OptionsView;

    open spec fn view(&self) -> OptionsView {
        OptionsView {
            skip_localhost: self.skip_localhost,
            apply_referral_marketing: self.apply_referral_marketing,
            domain_blocking: self.domain_blocking,
            additional_blocked_params: strs_view(self.additional_blocked_params@),
            blacklisted_domains: strs_view(self.blacklisted_domains@),
        }
    }
}

impl Default for CleaningOptions {
    /// Every toggle on, both caller lists empty.
    fn default() -> (r: Self)
        ensures
            r.skip_localhost,
            r.apply_referral_marketing,
            r.domain_blocking,
            r@.additional_blocked_params == Seq::<Seq<char>>::empty(),
            r@.blacklisted_domains == Seq::<Seq<char>>::empty(),
    {
        let r = CleaningOptions {
            skip_localhost: true,
            apply_referral_marketing: true,
            domain_blocking: true,
            additional_blocked_params: Vec::new(),
            blacklisted_domains: Vec::new(),
        };
        proof {
            assert(r@.additional_blocked_params =~= Seq::<Seq<char>>::empty());
            assert(r@.blacklisted_domains =~= Seq::<Seq<char>>::empty());
        }
        r
    }
}

/// Why a provider definition was dropped from the active set.
#[derive(Debug)]
pub struct CompileError {
    /// The provider whose definition failed.
    pub provider: String,
    /// The first rule field holding a pattern that does not compile.
    pub field: RuleField,
}

/// A provider with every pattern compiled.
struct CompiledProvider {
    name: String,
    url_pattern: Matcher,
    rules: Vec<Matcher>,
    raw_rules: Vec<Matcher>,
    exceptions: Vec<Matcher>,
    redirections: Vec<Matcher>,
    referral_marketing: Vec<Matcher>,
    complete_provider: bool,
    force_redirection: bool,
}

impl View for CompiledProvider {
    type V = ProviderModel;

    closed spec fn view(&self) -> ProviderModel {
        ProviderModel {
            name: self.name@,
            url_pattern: self.url_pattern@,
            rules: matchers_view(self.rules@),
            raw_rules: matchers_view(self.raw_rules@),
            exceptions: matchers_view(self.exceptions@),
            redirections: matchers_view(self.redirections@),
            referral_marketing: matchers_view(self.referral_marketing@),
            complete_provider: self.complete_provider,
            force_redirection: self.force_redirection,
        }
    }
}

/// Compiles each pattern verbatim; `None` exactly when one of them is
/// rejected.
fn compile_plain(pats: &Vec<String>) -> (r: Option<Vec<Matcher>>)
    ensures
        r is Some <==> all_valid_plain(strs_view(pats@)),
        r is Some ==> matchers_view(r->0@) == strs_view(pats@),
{
    let mut out: Vec<Matcher> = Vec::new();
    let mut i: usize = 0;
    while i < pats.len()
        invariant
            i <= pats@.len(),
            out@.len() == i,
            forall|j: int| 0 <= j < i ==> re_valid(#[trigger] strs_view(pats@)[j]),
            forall|j: int| 0 <= j < i ==> #[trigger] out@[j]@ == strs_view(pats@)[j],
        decreases pats@.len() - i,
    {
        match Matcher::new(pats[i].as_str()) {
            Option::None => {
                proof {
                    assert(strs_view(pats@)[i as int] == pats@[i as int]@);
                    assert(!re_valid(strs_view(pats@)[i as int]));
                    assert(!all_valid_plain(strs_view(pats@)));
                }
                return Option::None;
            },
            Option::Some(m) => {
                out.push(m);
            },
        }
        i = i + 1;
    }
    proof {
        assert(matchers_view(out@) =~= strs_view(pats@));
    }
    Option::Some(out)
}

/// Compiles each pattern in its anchored, case-insensitive form; `None`
/// exactly when one of those forms is rejected.
fn compile_anchored(pats: &Vec<String>) -> (r: Option<Vec<Matcher>>)
    ensures
        r is Some <==> all_valid_anchored(strs_view(pats@)),
        r is Some ==> matchers_view(r->0@) == strs_view(pats@).map_values(
            |p: Seq<char>| anchored_ci(p),
        ),
{
    let mut out: Vec<Matcher> = Vec::new();
    let mut i: usize = 0;
    while i < pats.len()
        invariant
            i <= pats@.len(),
            out@.len() == i,
            forall|j: int| 0 <= j < i ==> re_valid(anchored_ci(#[trigger] strs_view(pats@)[j])),
            forall|j: int| 0 <= j < i ==> #[trigger] out@[j]@ == anchored_ci(strs_view(pats@)[j]),
        decreases pats@.len() - i,
    {
        let anchored = anchor_ci(pats[i].as_str());
        match Matcher::new(anchored.as_str()) {
            Option::None => {
                proof {
                    assert(strs_view(pats@)[i as int] == pats@[i as int]@);
                    assert(!re_valid(anchored_ci(strs_view(pats@)[i as int])));
                    assert(!all_valid_anchored(strs_view(pats@)));
                }
                return Option::None;
            },
            Option::Some(m) => {
                out.push(m);
            },
        }
        i = i + 1;
    }
    proof {
        assert(matchers_view(out@) =~= strs_view(pats@).map_values(|p: Seq<char>| anchored_ci(p)));
    }
    Option::Some(out)
}

impl CompiledProvider {
    /// Compiles one provider definition, or says which field failed first.
    fn compile(name: String, provider: &Provider) -> (r: Result<CompiledProvider, CompileError>)
        ensures
            r is Ok <==> provider_compiles(provider@),
            r is Ok ==> r->Ok_0@ == compiled_model(name@, provider@),
            r is Err ==> r->Err_0.field == bad_field_of(provider@) && r->Err_0.provider@ == name@,
    {
        let url_pattern = match Matcher::new(provider.url_pattern.as_str()) {
            Option::None => {
                return Result::Err(CompileError { provider: name, field: RuleField::UrlPattern });
            },
            Option::Some(m) => m,
        };
        let rules = match compile_anchored(&provider.rules) {
            Option::None => {
                return Result::Err(CompileError { provider: name, field: RuleField::Rules });
            },
            Option::Some(v) => v,
        };
        let raw_rules = match compile_plain(&provider.raw_rules) {
            Option::None => {
                return Result::Err(CompileError { provider: name, field: RuleField::RawRules });
            },
            Option::Some(v) => v,
        };
        let exceptions = match compile_plain(&provider.exceptions) {
            Option::None => {
                return Result::Err(CompileError { provider: name, field: RuleField::Exceptions });
            },
            Option::Some(v) => v,
        };
        let redirections = match compile_plain(&provider.redirections) {
            Option::None => {
                return Result::Err(
                    CompileError { provider: name, field: RuleField::Redirections },
                );
            },
            Option::Some(v) => v,
        };
        let referral_marketing = match compile_anchored(&provider.referral_marketing) {
            Option::None => {
                return Result::Err(
                    CompileError { provider: name, field: RuleField::ReferralMarketing },
                );
            },
            Option::Some(v) => v,
        };
        let compiled = CompiledProvider {
            name,
            url_pattern,
            rules,
            raw_rules,
            exceptions,
            redirections,
            referral_marketing,
            complete_provider: provider.complete_provider,
            force_redirection: provider.force_redirection,
        };
        Result::Ok(compiled)
    }
}

/// The pattern strings of a sequence of compiled providers.
spec fn cps_view(cs: Seq<CompiledProvider>) -> Seq<ProviderModel> {
    cs.map_values(|c: CompiledProvider| c@)
}

/// The URL cleaner: an immutable compiled provider set plus the caller's
/// options.
pub struct UrlCleaner {
    providers: Vec<CompiledProvider>,
    options: CleaningOptions,
}

impl View for UrlCleaner {
    type V = CleanerView;

    closed spec fn view(&self) -> CleanerView {
        CleanerView { providers: cps_view(self.providers@), options: self.options@ }
    }
}

impl UrlCleaner {
    /// Builds a cleaner from a rule database. A provider whose patterns
    /// fail to compile is dropped; the others proceed.
    pub fn new(config: ClearUrlsConfig, options: CleaningOptions) -> (r: Result<
        UrlCleaner,
        CompileError,
    >)
        ensures
            r is Ok,
            r->Ok_0@.providers == compiled_providers(config@, 0),
            r->Ok_0@.options == options@,
    {
        let mut providers: Vec<CompiledProvider> = Vec::new();
        let mut i: usize = 0;
        proof {
            assert(cps_view(providers@) + compiled_providers(config@, 0) =~= compiled_providers(
                config@,
                0,
            ));
        }
        while i < config.providers.len()
            invariant
                i <= config.providers@.len(),
                config@.len() == config.providers@.len(),
                cps_view(providers@) + compiled_providers(config@, i as int) =~= compiled_providers(
                    config@,
                    0,
                ),
            decreases config.providers@.len() - i,
        {
            let entry = &config.providers[i];
            let name = entry.0.clone();
            proof {
                assert(config@[i as int] == (config.providers@[i as int].0@, config.providers@[
                    i as int].1@));
            }
            match CompiledProvider::compile(name, &entry.1) {
                Result::Ok(compiled) => {
                    providers.push(compiled);
                    proof {
                        assert(cps_view(providers@) =~= cps_view(providers@.drop_last()).push(
                            providers@.last()@,
                        ));
                        assert(cps_view(providers@) + compiled_providers(config@, i + 1)
                            =~= compiled_providers(config@, 0));
                    }
                },
                Result::Err(_) => {
                    proof {
                        assert(cps_view(providers@) + compiled_providers(config@, i + 1)
                            =~= compiled_providers(config@, 0));
                    }
                },
            }
            i = i + 1;
        }
        proof {
            assert(cps_view(providers@) =~= compiled_providers(config@, 0));
        }
        Result::Ok(UrlCleaner { providers, options })
    }
}

impl CompiledProvider {
    /// Whether the provider's pattern matches the serialized URL.
    fn matches_url(&self, url: &ParsedUrl) -> (r: bool)
        ensures
            r == re_match(self@.url_pattern, url@.serial),
    {
        self.url_pattern.is_match(url.as_str())
    }

    /// Whether any exception pattern matches the serialized URL.
    fn matches_exception(&self, url: &ParsedUrl) -> (r: bool)
        ensures
            r == has_exception(self@.exceptions, url@.serial),
    {
        let serial = url.as_str();
        let mut i: usize = 0;
        while i < self.exceptions.len()
            invariant
                i <= self.exceptions@.len(),
                serial@ == url@.serial,
                forall|j: int|
                    0 <= j < i ==> !re_match(
                        #[trigger] matchers_view(self.exceptions@)[j],
                        url@.serial,
                    ),
            decreases self.exceptions@.len() - i,
        {
            if self.exceptions[i].is_match(serial) {
                assert(matchers_view(self.exceptions@)[i as int] == self.exceptions@[i as int]@);
                return true;
            }
            i = i + 1;
        }
        false
    }
}

/// Whether any of the matchers removes the parameter name `key`.
fn any_rule_matches(all: &Vec<&Matcher>, key: &str) -> (r: bool)
    ensures
        r == param_matches(matcher_refs_view(all@), key@),
{
    let mut j: usize = 0;
    while j < all.len()
        invariant
            j <= all@.len(),
            forall|k: int|
                0 <= k < j ==> !re_match(
                    #[trigger] matcher_refs_view(all@)[k],
                    key@,
                ),
        decreases all@.len() - j,
    {
        if all[j].is_match(key) {
            assert(matcher_refs_view(all@)[j as int] == all@[j as int]@);
            return true;
        }
        j = j + 1;
    }
    false
}

/// Whether `key` is one of the strings in `list`, compared exactly.
fn contains_str(list: &Vec<String>, key: &str) -> (r: bool)
    ensures
        r == strs_view(list@).contains(key@),
{
    let mut j: usize = 0;
    while j < list.len()
        invariant
            j <= list@.len(),
            forall|k: int| 0 <= k < j ==> #[trigger] strs_view(list@)[k] != key@,
        decreases list@.len() - j,
    {
        if str_eq(list[j].as_str(), key) {
            assert(strs_view(list@)[j as int] == key@);
            return true;
        }
        j = j + 1;
    }
    false
}

impl UrlCleaner {
    /// Whether the URL's host is localhost or in a private range.
    fn is_localhost(&self, url: &ParsedUrl) -> (r: bool)
        ensures
            r == is_localhost_host(url@.host),
    {
        let host = url.host_str();
        str_eq(host, "localhost") || str_starts_with(host, "127.") || str_starts_with(
            host,
            "192.168.",
        ) || str_starts_with(host, "10.") || str_starts_with(host, "172.")
    }

    /// Whether this URL is to be left untouched.
    fn should_skip_url(&self, url: &ParsedUrl) -> (r: bool)
        ensures
            r == should_skip(self@.options, url@.host),
    {
        if self.options.skip_localhost && self.is_localhost(url) {
            return true;
        }
        let host = url.host_str();
        let mut i: usize = 0;
        while i < self.options.blacklisted_domains.len()
            invariant
                i <= self.options.blacklisted_domains@.len(),
                host@ == url@.host,
                forall|j: int|
                    0 <= j < i ==> !(#[trigger] strs_view(
                        self.options.blacklisted_domains@,
                    )[j]).is_suffix_of(url@.host),
            decreases self.options.blacklisted_domains@.len() - i,
        {
            if str_ends_with(host, self.options.blacklisted_domains[i].as_str()) {
                proof {
                    assert(strs_view(self.options.blacklisted_domains@)[i as int]
                        == self.options.blacklisted_domains@[i as int]@);
                    assert(self@.options.blacklisted_domains == strs_view(
                        self.options.blacklisted_domains@,
                    ));
                    assert((self@.options.blacklisted_domains[i as int]).is_suffix_of(
                        url@.host,
                    ));
                }
                return true;
            }
            i = i + 1;
        }
        false
    }

    /// Strips the query parameters the provider's active rules remove,
    /// preserving the order and the values of the survivors.
    fn apply_parameter_rules(&self, provider: &CompiledProvider, url: &mut ParsedUrl) -> (c: bool)
        ensures
            ({
                let step = apply_params_step(
                    active_rules(provider@, self@.options),
                    old(url)@,
                );
                final(url)@ == step.0 && c == step.1
            }),
    {
        let ghost rules_v = active_rules(provider@, self@.options);
        let mut all: Vec<&Matcher> = Vec::new();
        let mut i: usize = 0;
        while i < provider.rules.len()
            invariant
                i <= provider.rules@.len(),
                all@.len() == i,
                forall|j: int| 0 <= j < i ==> #[trigger] all@[j]@ == matchers_view(
                    provider.rules@,
                )[j],
            decreases provider.rules@.len() - i,
        {
            all.push(&provider.rules[i]);
            i = i + 1;
        }
        proof {
            assert(matcher_refs_view(all@) =~= provider@.rules);
        }
        if self.options.apply_referral_marketing {
            let mut k: usize = 0;
            while k < provider.referral_marketing.len()
                invariant
                    k <= provider.referral_marketing@.len(),
                    all@.len() == provider.rules@.len() + k,
                    forall|j: int|
                        0 <= j < provider.rules@.len() ==> #[trigger] all@[j]@ == matchers_view(
                            provider.rules@,
                        )[j],
                    forall|j: int|
                        provider.rules@.len() <= j < all@.len() ==> #[trigger] all@[j]@
                            == matchers_view(provider.referral_marketing@)[j - provider.rules@.len()],
                decreases provider.referral_marketing@.len() - k,
            {
                all.push(&provider.referral_marketing[k]);
                k = k + 1;
            }
            proof {
                assert(matcher_refs_view(all@) =~= provider@.rules
                    + provider@.referral_marketing);
            }
        }
        proof {
            assert(matcher_refs_view(all@) == rules_v);
        }
        let ghost params0 = old(url)@.params;
        let ghost keep = |p: (Seq<char>, Seq<char>)| !param_matches(rules_v, p.0);
        let n = url.param_len();
        let mut surv: Vec<(String, String)> = Vec::new();
        let mut i2: usize = 0;
        proof {
            assert(params0.take(0) =~= Seq::<(Seq<char>, Seq<char>)>::empty());
            reveal(Seq::filter);
            assert(pairs_view(surv@) =~= params0.take(0).filter(keep));
        }
        while i2 < n
            invariant
                i2 <= n,
                n == url@.params.len(),
                *url == *old(url),
                params0 == old(url)@.params,
                pairs_view(surv@) =~= params0.take(i2 as int).filter(keep),
                keep == (|p: (Seq<char>, Seq<char>)| !param_matches(rules_v, p.0)),
                matcher_refs_view(all@) == rules_v,
            decreases n - i2,
        {
            let p = url.param_at(i2);
            let removed = any_rule_matches(&all, p.0.as_str());
            let ghost prev = pairs_view(surv@);
            if !removed {
                surv.push((p.0.clone(), p.1.clone()));
                proof {
                    assert(pairs_view(surv@) =~= prev.push(params0[i2 as int]));
                }
            }
            proof {
                assert(params0.take(i2 + 1) =~= params0.take(i2 as int) + seq![
                    params0[i2 as int],
                ]);
                crate::model::lemma_filter_one(
                    params0.take(i2 as int),
                    params0[i2 as int],
                    keep,
                );
            }
            i2 = i2 + 1;
        }
        proof {
            assert(params0.take(n as int) =~= params0);
            assert(pairs_view(surv@) =~= surviving(params0, rules_v));
        }
        if surv.len() == n {
            proof {
                assert(surviving(params0, rules_v).len() == params0.len());
            }
            false
        } else {
            proof {
                assert(surviving(params0, rules_v).len() != params0.len());
            }
            url.set_pairs(surv);
            true
        }
    }
}

/// What one provider's application reported back to the orchestrator.
enum StepResult {
    Cancelled,
    Redirected,
    Cleaned { changed: bool },
}

/// The result of one `clean_url` call.
#[derive(Debug)]
pub struct CleaningResult {
    /// The cleaned URL.
    pub url: ParsedUrl,
    /// Whether any changes were made.
    pub changed: bool,
    /// Whether this URL resolved to a redirection target.
    pub redirect: bool,
    /// Whether the request is to be cancelled outright.
    pub cancel: bool,
    /// Which rules were applied, in encounter order.
    pub applied_rules: Vec<String>,
}

/// How a `clean_url` result realizes a pipeline outcome of the model.
pub open spec fn result_matches(r: Result<CleaningResult, CleanError>, o: CleanOutcome) -> bool {
    match o {
        CleanOutcome::Done { url, changed, applied } => r is Ok && (r->Ok_0.url@ == url
            && r->Ok_0.changed == changed && !r->Ok_0.redirect && !r->Ok_0.cancel
            && r->Ok_0.applied_rules.deep_view() == applied),
        CleanOutcome::Redirected { url, applied } => r is Ok && (r->Ok_0.url@ == url
            && r->Ok_0.changed && r->Ok_0.redirect && !r->Ok_0.cancel
            && r->Ok_0.applied_rules.deep_view() == applied),
        CleanOutcome::Cancelled { url, applied } => r is Ok && (r->Ok_0.url@ == url
            && !r->Ok_0.changed && !r->Ok_0.redirect && r->Ok_0.cancel
            && r->Ok_0.applied_rules.deep_view() == applied),
        CleanOutcome::Failed { err } => r is Err && r->Err_0 == err,
    }
}

impl UrlCleaner {
    /// Strips the query parameters on the caller's additional block-list,
    /// matching names exactly.
    fn apply_additional_param_rules(&self, url: &mut ParsedUrl) -> (c: bool)
        ensures
            ({
                let step = apply_additional_step(
                    self@.options.additional_blocked_params,
                    old(url)@,
                );
                final(url)@ == step.0 && c == step.1
            }),
    {
        if self.options.additional_blocked_params.len() == 0 {
            return false;
        }
        let ghost blocked = self@.options.additional_blocked_params;
        let ghost keep = |p: (Seq<char>, Seq<char>)| !blocked.contains(p.0);
        let ghost params0 = old(url)@.params;
        let n = url.param_len();
        let mut surv: Vec<(String, String)> = Vec::new();
        let mut i: usize = 0;
        proof {
            assert(params0.take(0) =~= Seq::<(Seq<char>, Seq<char>)>::empty());
            reveal(Seq::filter);
            assert(pairs_view(surv@) =~= params0.take(0).filter(keep));
        }
        while i < n
            invariant
                i <= n,
                n == url@.params.len(),
                *url == *old(url),
                params0 == old(url)@.params,
                blocked == self@.options.additional_blocked_params,
                pairs_view(surv@) =~= params0.take(i as int).filter(keep),
                keep == (|p: (Seq<char>, Seq<char>)| !blocked.contains(p.0)),
            decreases n - i,
        {
            let p = url.param_at(i);
            let removed = contains_str(&self.options.additional_blocked_params, p.0.as_str());
            let ghost prev = pairs_view(surv@);
            proof {
                assert(blocked == strs_view(self.options.additional_blocked_params@));
            }
            if !removed {
                surv.push((p.0.clone(), p.1.clone()));
                proof {
                    assert(pairs_view(surv@) =~= prev.push(params0[i as int]));
                }
            }
            proof {
                assert(params0.take(i + 1) =~= params0.take(i as int) + seq![
                    params0[i as int],
                ]);
                crate::model::lemma_filter_one(params0.take(i as int), params0[i as int], keep);
            }
            i = i + 1;
        }
        proof {
            assert(params0.take(n as int) =~= params0);
            assert(pairs_view(surv@) =~= surviving_additional(params0, blocked));
        }
        if surv.len() == n {
            proof {
                assert(surviving_additional(params0, blocked).len() == params0.len());
            }
            false
        } else {
            proof {
                assert(surviving_additional(params0, blocked).len() != params0.len());
            }
            url.set_pairs(surv);
            true
        }
    }

    /// Resolves the first redirection whose capture takes part: the captured
    /// target is percent-decoded and re-parsed; either failure is fatal.
    fn apply_redirections(&self, provider: &CompiledProvider, url: &ParsedUrl) -> (r: Result<
        Option<ParsedUrl>,
        CleanError,
    >)
        ensures
            (match first_redirect_from(provider@.redirections, url@.serial, 0) {
                Option::None => r is Ok && r->Ok_0 is None,
                Option::Some(cap) => match pct_decoded(cap) {
                    Option::None => r is Err && r->Err_0 == CleanError::RedirectDecode,
                    Option::Some(target) => if !url_ok(target) {
                        r is Err && r->Err_0 == CleanError::RedirectParse
                    } else {
                        r is Ok && r->Ok_0 is Some && r->Ok_0->0@ == parsed_view(target)
                    },
                },
            }),
    {
        let serial = url.as_str();
        let mut i: usize = 0;
        while i < provider.redirections.len()
            invariant
                i <= provider.redirections@.len(),
                serial@ == url@.serial,
                first_redirect_from(provider@.redirections, url@.serial, 0)
                    == first_redirect_from(provider@.redirections, url@.serial, i as int),
            decreases provider.redirections@.len() - i,
        {
            proof {
                assert(provider@.redirections[i as int] == provider.redirections@[i as int]@);
            }
            match provider.redirections[i].capture1(serial) {
                Option::Some(cap) => {
                    proof {
                        assert(re_capture1(provider@.redirections[i as int], url@.serial)
                            == Option::Some(cap@));
                        assert(first_redirect_from(provider@.redirections, url@.serial, i as int)
                            == Option::Some(cap@));
                    }
                    match crate::url_value::percent_decode(cap.as_str()) {
                        Option::None => {
                            return Result::Err(CleanError::RedirectDecode);
                        },
                        Option::Some(target) => {
                            match ParsedUrl::parse(target.as_str()) {
                                Option::None => {
                                    return Result::Err(CleanError::RedirectParse);
                                },
                                Option::Some(u2) => {
                                    proof {
                                        assert(u2@ =~= parsed_view(target@));
                                    }
                                    return Result::Ok(Option::Some(u2));
                                },
                            }
                        },
                    }
                },
                Option::None => {
                    proof {
                        assert(first_redirect_from(
                            provider@.redirections,
                            url@.serial,
                            i as int,
                        ) == first_redirect_from(provider@.redirections, url@.serial, i + 1));
                    }
                },
            }
            i = i + 1;
        }
        Result::Ok(Option::None)
    }

    /// One provider's rules, in strict order: complete-provider blocking,
    /// redirection resolution, raw-rule rewriting, parameter stripping.
    fn apply_provider_rules(
        &self,
        provider: &CompiledProvider,
        url: &mut ParsedUrl,
        applied: &mut Vec<String>,
    ) -> (r: Result<StepResult, CleanError>)
        ensures
            (match apply_provider(provider@, self@.options, old(url)@) {
                StepOutcome::Cancelled => r is Ok && r->Ok_0 == StepResult::Cancelled
                    && *final(url) == *old(url) && final(applied)@ == old(applied)@,
                StepOutcome::Redirected { url: u2 } => r is Ok && r->Ok_0
                    == StepResult::Redirected && final(url)@ == u2 && final(applied).deep_view()
                    == old(applied).deep_view().push(redirect_label(provider@.name)),
                StepOutcome::Cleaned { url: u2, changed: ch, applied: a } => r is Ok && r->Ok_0
                    == (StepResult::Cleaned { changed: ch }) && final(url)@ == u2
                    && final(applied).deep_view() == old(applied).deep_view() + a,
                StepOutcome::Failed { err } => r is Err && r->Err_0 == err,
            }),
    {
        if provider.complete_provider && self.options.domain_blocking {
            return Result::Ok(StepResult::Cancelled);
        }
        match self.apply_redirections(provider, url) {
            Result::Err(e) => {
                return Result::Err(e);
            },
            Result::Ok(Option::Some(new_url)) => {
                *url = new_url;
                let mut label = provider.name.clone();
                label.append("_redirect");
                let ghost lv = label@;
                let ghost ap0 = applied.deep_view();
                applied.push(label);
                proof {
                    assert(lv == redirect_label(provider@.name));
                    assert(applied.deep_view() =~= ap0.push(redirect_label(provider@.name)));
                }
                return Result::Ok(StepResult::Redirected);
            },
            Result::Ok(Option::None) => {},
        }
        proof {
            assert(first_redirect_from(provider@.redirections, old(url)@.serial, 0) is None);
        }
        let ghost u_start = url@;
        let ghost name_v = provider@.name;
        let ghost raws_v = provider@.raw_rules;
        let ghost ap_start = applied.deep_view();
        let k0 = applied.len();
        let mut raw_changed = false;
        let mut i: usize = 0;
        proof {
            assert(applied.deep_view().take(k0 as int) =~= ap_start);
            assert(applied.deep_view().skip(k0 as int) =~= Seq::<Seq<char>>::empty());
            assert(applied.deep_view().skip(k0 as int) + Seq::<Seq<char>>::empty() =~= Seq::<
                Seq<char>,
            >::empty());
            match apply_raw_from(name_v, raws_v, url@, 0) {
                RawOutcome::Cleaned { url: uf, changed: cf, applied: af } => {
                    assert(applied.deep_view().skip(k0 as int) + af =~= af);
                },
                RawOutcome::Failed => {},
            }
        }
        while i < provider.raw_rules.len()
            invariant
                i <= provider.raw_rules@.len(),
                name_v == provider@.name,
                raws_v == provider@.raw_rules,
                u_start == old(url)@,
                ap_start == old(applied).deep_view(),
                !(provider@.complete_provider && self@.options.domain_blocking),
                first_redirect_from(provider@.redirections, old(url)@.serial, 0) is None,
                k0 == ap_start.len(),
                applied.deep_view().len() >= k0,
                applied.deep_view().take(k0 as int) == ap_start,
                (match apply_raw_from(name_v, raws_v, url@, i as int) {
                    RawOutcome::Cleaned { url: uf, changed: cf, applied: af } => apply_raw_from(
                        name_v,
                        raws_v,
                        u_start,
                        0,
                    ) == (RawOutcome::Cleaned {
                        url: uf,
                        changed: raw_changed || cf,
                        applied: applied.deep_view().skip(k0 as int) + af,
                    }),
                    RawOutcome::Failed => apply_raw_from(name_v, raws_v, u_start, 0)
                        is Failed,
                }),
            decreases provider.raw_rules@.len() - i,
        {
            proof {
                assert(raws_v[i as int] == provider.raw_rules@[i as int]@);
            }
            let ghost prev_u = url@;
            let deleted = provider.raw_rules[i].delete_all(url.as_str());
            if !str_eq(deleted.as_str(), url.as_str()) {
                match ParsedUrl::parse(deleted.as_str()) {
                    Option::None => {
                        proof {
                            assert(apply_raw_from(name_v, raws_v, prev_u, i as int)
                                is Failed);
                            assert(apply_raw_from(name_v, raws_v, u_start, 0) is Failed);
                            assert(first_redirect_from(
                                provider@.redirections,
                                old(url)@.serial,
                                0,
                            ) is None);
                            assert(apply_provider(provider@, self@.options, old(url)@)
                                == (StepOutcome::Failed { err: CleanError::RawRuleParse }));
                        }
                        return Result::Err(CleanError::RawRuleParse);
                    },
                    Option::Some(u2) => {
                        proof {
                            assert(u2@ =~= parsed_view(deleted@));
                        }
                        *url = u2;
                        raw_changed = true;
                        let mut label = provider.name.clone();
                        label.append("_raw_");
                        let num = crate::strutil::fmt_u64(i as u64);
                        label.append(num.as_str());
                        let ghost lv = label@;
                        let ghost ap_prev = applied.deep_view();
                        applied.push(label);
                        proof {
                            assert(i as u64 as nat == i as nat);
                            assert(lv == raw_label(name_v, i as int));
                            assert(applied.deep_view() =~= ap_prev.push(lv));
                            assert(applied.deep_view().take(k0 as int) =~= ap_start);
                            assert(applied.deep_view().skip(k0 as int) =~= ap_prev.skip(
                                k0 as int,
                            ).push(lv));
                            assert(apply_raw_from(name_v, raws_v, prev_u, i as int) == (
                            match apply_raw_from(name_v, raws_v, url@, i + 1) {
                                RawOutcome::Cleaned { url: uf, changed: cf, applied: af } => (
                                RawOutcome::Cleaned {
                                    url: uf,
                                    changed: true,
                                    applied: seq![raw_label(name_v, i as int)] + af,
                                }),
                                RawOutcome::Failed => RawOutcome::Failed,
                            }));
                            match apply_raw_from(name_v, raws_v, url@, i + 1) {
                                RawOutcome::Cleaned { url: uf, changed: cf, applied: af } => {
                                    assert(ap_prev.skip(k0 as int) + (seq![
                                        raw_label(name_v, i as int),
                                    ] + af) =~= applied.deep_view().skip(k0 as int) + af);
                                },
                                RawOutcome::Failed => {},
                            }
                        }
                    },
                }
            } else {
                proof {
                    assert(apply_raw_from(name_v, raws_v, url@, i as int) == apply_raw_from(
                        name_v,
                        raws_v,
                        url@,
                        i + 1,
                    ));
                }
            }
            i = i + 1;
        }
        let ghost labels = applied.deep_view().skip(k0 as int);
        proof {
            assert(apply_raw_from(name_v, raws_v, url@, i as int) == (RawOutcome::Cleaned {
                url: url@,
                changed: false,
                applied: Seq::<Seq<char>>::empty(),
            }));
            assert(labels + Seq::<Seq<char>>::empty() =~= labels);
            assert(apply_raw_from(name_v, raws_v, u_start, 0) == (RawOutcome::Cleaned {
                url: url@,
                changed: raw_changed,
                applied: labels,
            }));
        }
        let c2 = self.apply_parameter_rules(provider, url);
        proof {
            assert(ap_start + labels =~= applied.deep_view());
        }
        Result::Ok(StepResult::Cleaned { changed: raw_changed || c2 })
    }

    /// Cleans one URL: normalize, parse, skip-check, provider loop,
    /// post-processing, exactly as the model runs it.
    pub fn clean_url(&self, url: &str) -> (r: Result<CleaningResult, CleanError>)
        ensures
            result_matches(r, spec_clean(self@.providers, self@.options, url@)),
    {
        let normalized_url: String = if str_starts_with(url, "https://") || str_starts_with(
            url,
            "http://",
        ) {
            url.to_owned()
        } else {
            let mut t = String::from_str("https://");
            t.append(url);
            t
        };
        proof {
            assert(normalized_url@ == normalized(url@));
        }
        let mut cur = match ParsedUrl::parse(normalized_url.as_str()) {
            Option::None => {
                return Result::Err(CleanError::Parse);
            },
            Option::Some(u) => u,
        };
        proof {
            assert(cur@ =~= parsed_view(normalized(url@)));
        }
        if self.should_skip_url(&cur) {
            let empty_rules: Vec<String> = Vec::new();
            proof {
                assert(empty_rules.deep_view() =~= Seq::<Seq<char>>::empty());
            }
            return Result::Ok(
                CleaningResult {
                    url: cur,
                    changed: false,
                    redirect: false,
                    cancel: false,
                    applied_rules: empty_rules,
                },
            );
        }
        let ghost u0 = cur@;
        let ghost provs = self@.providers;
        let ghost opts = self@.options;
        let mut changed = false;
        let mut applied: Vec<String> = Vec::new();
        let mut i: usize = 0;
        proof {
            assert(applied.deep_view() =~= Seq::<Seq<char>>::empty());
        }
        while i < self.providers.len()
            invariant
                i <= self.providers@.len(),
                provs == self@.providers,
                opts == self@.options,
                url_ok(normalized(url@)),
                u0 == parsed_view(normalized(url@)),
                !should_skip(opts, u0.host),
                run_from(provs, opts, u0, 0, false, Seq::empty()) == run_from(
                    provs,
                    opts,
                    cur@,
                    i as int,
                    changed,
                    applied.deep_view(),
                ),
            decreases self.providers@.len() - i,
        {
            let p = &self.providers[i];
            proof {
                assert(provs[i as int] == self.providers@[i as int]@);
            }
            if p.matches_url(&cur) && !p.matches_exception(&cur) {
                let ghost ap_before = applied.deep_view();
                let ghost u_before = cur@;
                let ghost ch_before = changed;
                proof {
                    assert(crate::model::provider_active(provs[i as int], u_before));
                }
                applied.push(p.name.clone());
                proof {
                    assert(applied.deep_view() =~= ap_before.push(p@.name));
                }
                match self.apply_provider_rules(p, &mut cur, &mut applied) {
                    Result::Err(e) => {
                        proof {
                            assert(apply_provider(provs[i as int], opts, u_before)
                                == (StepOutcome::Failed { err: e }));
                            assert(run_from(provs, opts, u_before, i as int, ch_before, ap_before)
                                == (CleanOutcome::Failed { err: e }));
                            assert(spec_clean(provs, opts, url@) == (CleanOutcome::Failed {
                                err: e,
                            }));
                        }
                        return Result::Err(e);
                    },
                    Result::Ok(StepResult::Cancelled) => {
                        proof {
                            assert(apply_provider(provs[i as int], opts, u_before)
                                is Cancelled);
                            assert(run_from(provs, opts, u_before, i as int, ch_before, ap_before)
                                == (CleanOutcome::Cancelled {
                                url: u_before,
                                applied: ap_before.push(provs[i as int].name),
                            }));
                            assert(spec_clean(provs, opts, url@) == (CleanOutcome::Cancelled {
                                url: u_before,
                                applied: ap_before.push(provs[i as int].name),
                            }));
                        }
                        return Result::Ok(
                            CleaningResult {
                                url: cur,
                                changed: false,
                                redirect: false,
                                cancel: true,
                                applied_rules: applied,
                            },
                        );
                    },
                    Result::Ok(StepResult::Redirected) => {
                        proof {
                            assert(apply_provider(provs[i as int], opts, u_before)
                                is Redirected);
                            let u2 = apply_provider(
                                provs[i as int],
                                opts,
                                u_before,
                            )->Redirected_url;
                            assert(run_from(provs, opts, u_before, i as int, ch_before, ap_before)
                                == (CleanOutcome::Redirected {
                                url: u2,
                                applied: ap_before.push(provs[i as int].name).push(
                                    redirect_label(provs[i as int].name),
                                ),
                            }));
                            assert(spec_clean(provs, opts, url@) == run_from(
                                provs,
                                opts,
                                u_before,
                                i as int,
                                ch_before,
                                ap_before,
                            ));
                        }
                        return Result::Ok(
                            CleaningResult {
                                url: cur,
                                changed: true,
                                redirect: true,
                                cancel: false,
                                applied_rules: applied,
                            },
                        );
                    },
                    Result::Ok(StepResult::Cleaned { changed: c }) => {
                        if c {
                            changed = true;
                        }
                        proof {
                            assert(apply_provider(provs[i as int], opts, u_before) matches
                                StepOutcome::Cleaned { url: uu, changed: cc, applied: aa }
                                && uu == cur@ && cc == c && applied.deep_view()
                                == ap_before.push(provs[i as int].name) + aa);
                            assert(run_from(provs, opts, u_before, i as int, ch_before, ap_before)
                                == run_from(
                                provs,
                                opts,
                                cur@,
                                i + 1,
                                changed,
                                applied.deep_view(),
                            ));
                        }
                    },
                }
            }
            i = i + 1;
        }
        let c2 = self.apply_additional_param_rules(&mut cur);
        if c2 {
            changed = true;
            let ghost ap_before = applied.deep_view();
            applied.push(String::from_str("additional_params"));
            proof {
                assert(applied.deep_view() =~= ap_before.push(additional_label()));
            }
        }
        Result::Ok(
            CleaningResult {
                url: cur,
                changed,
                redirect: false,
                cancel: false,
                applied_rules: applied,
            },
        )
    }
}

} // verus!
