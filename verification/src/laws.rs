//! The engine's general laws, stated over the model that `clean_url`'s
//! contract speaks of, and proved once and for all.

use vstd::prelude::*;
use crate::matcher::re_match;
use crate::model::{
    apply_additional_step, apply_params_step, apply_provider, first_redirect_from, normalized,
    param_matches, provider_active, run_from, should_skip, spec_clean, surviving, CleanOutcome,
    OptionsView, ProviderModel, StepOutcome,
};
use crate::url_value::{parsed_view, pct_decoded, url_ok, UrlView};

verus! {

/// Filtering with the same predicate twice is the same as filtering once.
proof fn lemma_filter_idempotent<A>(s: Seq<A>, pred: spec_fn(A) -> bool)
    ensures
        s.filter(pred).filter(pred) == s.filter(pred),
    decreases s.len(),
{
    reveal(Seq::filter);
    if s.len() > 0 {
        lemma_filter_idempotent(s.drop_last(), pred);
        if pred(s.last()) {
            assert(s.filter(pred) =~= s.drop_last().filter(pred) + seq![s.last()]);
            crate::model::lemma_filter_one(s.drop_last().filter(pred), s.last(), pred);
        }
    }
}

/// The provider loop passes over providers that are not active for the URL
/// without touching it.
pub proof fn lemma_run_skips_inactive(
    providers: Seq<ProviderModel>,
    opts: OptionsView,
    u: UrlView,
    k: int,
    i: int,
    changed: bool,
    applied: Seq<Seq<char>>,
)
    requires
        0 <= k <= i <= providers.len(),
        forall|j: int| k <= j < i ==> !provider_active(#[trigger] providers[j], u),
    ensures
        run_from(providers, opts, u, k, changed, applied) == run_from(
            providers,
            opts,
            u,
            i,
            changed,
            applied,
        ),
    decreases i - k,
{
    if k < i {
        lemma_run_skips_inactive(providers, opts, u, k + 1, i, changed, applied);
    }
}

/// When no provider's pattern matches the URL and no additional blocked
/// parameters are configured, cleaning reports no change and hands the URL
/// back as parsed — altered only by scheme normalization.
pub proof fn lemma_no_provider_no_change(
    providers: Seq<ProviderModel>,
    opts: OptionsView,
    input: Seq<char>,
)
    requires
        url_ok(normalized(input)),
        forall|j: int|
            0 <= j < providers.len() ==> !re_match(
                (#[trigger] providers[j]).url_pattern,
                parsed_view(normalized(input)).serial,
            ),
        opts.additional_blocked_params.len() == 0,
    ensures
        spec_clean(providers, opts, input) == (CleanOutcome::Done {
            url: parsed_view(normalized(input)),
            changed: false,
            applied: Seq::empty(),
        }),
{
    let u0 = parsed_view(normalized(input));
    if !should_skip(opts, u0.host) {
        assert forall|j: int| 0 <= j < providers.len() implies !provider_active(
            #[trigger] providers[j],
            u0,
        ) by {}
        lemma_run_skips_inactive(
            providers,
            opts,
            u0,
            0,
            providers.len() as int,
            false,
            Seq::empty(),
        );
    }
}

/// Stripping query parameters is idempotent: applying the same
/// parameter-name rules to a URL they were already applied to removes
/// nothing more and leaves the URL as it is.
pub proof fn lemma_params_step_idempotent(rules: Seq<Seq<char>>, u: UrlView)
    ensures
        ({
            let s1 = apply_params_step(rules, u);
            let s2 = apply_params_step(rules, s1.0);
            s2.0 == s1.0 && !s2.1
        }),
{
    lemma_filter_idempotent(u.params, |p: (Seq<char>, Seq<char>)| !param_matches(rules, p.0));
}

/// The additional block-list is idempotent in the same way.
pub proof fn lemma_additional_step_idempotent(blocked: Seq<Seq<char>>, u: UrlView)
    ensures
        ({
            let s1 = apply_additional_step(blocked, u);
            let s2 = apply_additional_step(blocked, s1.0);
            s2.0 == s1.0 && !s2.1
        }),
{
    lemma_filter_idempotent(u.params, |p: (Seq<char>, Seq<char>)| !blocked.contains(p.0));
}

/// Parameter stripping keeps the surviving pairs in their original order
/// with their original values: the survivors of a concatenation are the
/// survivors of its parts, concatenated.
pub proof fn lemma_surviving_order(
    a: Seq<(Seq<char>, Seq<char>)>,
    b: Seq<(Seq<char>, Seq<char>)>,
    rules: Seq<Seq<char>>,
)
    ensures
        surviving(a + b, rules) == surviving(a, rules) + surviving(b, rules),
{
    Seq::filter_distributes_over_add(
        a,
        b,
        |p: (Seq<char>, Seq<char>)| !param_matches(rules, p.0),
    );
}

/// A complete provider, with domain blocking enabled, cancels the request
/// outright and the URL comes back unmodified.
pub proof fn lemma_complete_provider_cancels(
    providers: Seq<ProviderModel>,
    opts: OptionsView,
    u: UrlView,
    i: int,
)
    requires
        0 <= i < providers.len(),
        forall|j: int| 0 <= j < i ==> !provider_active(#[trigger] providers[j], u),
        provider_active(providers[i], u),
        providers[i].complete_provider,
        opts.domain_blocking,
    ensures
        run_from(providers, opts, u, 0, false, Seq::empty()) == (CleanOutcome::Cancelled {
            url: u,
            applied: seq![providers[i].name],
        }),
{
    lemma_run_skips_inactive(providers, opts, u, 0, i, false, Seq::empty());
    assert(Seq::<Seq<char>>::empty().push(providers[i].name) =~= seq![providers[i].name]);
}

/// A redirection whose captured target percent-decodes and re-parses
/// resolves the URL to exactly the decoded destination.
pub proof fn lemma_redirection_resolves(
    p: ProviderModel,
    opts: OptionsView,
    u: UrlView,
    cap: Seq<char>,
    target: Seq<char>,
)
    requires
        !(p.complete_provider && opts.domain_blocking),
        first_redirect_from(p.redirections, u.serial, 0) == Option::Some(cap),
        pct_decoded(cap) == Option::Some(target),
        url_ok(target),
    ensures
        apply_provider(p, opts, u) == (StepOutcome::Redirected { url: parsed_view(target) }),
{
}

} // verus!
