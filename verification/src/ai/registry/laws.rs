//! What the choice of a model promises.
use super::{
    active, answering, asked_for, backend_of, connection, filled, first_registry, has_model,
    healed, is_configured, is_usable, law_browser_answers_for_itself, merged, recommended, runs_on,
    tuned, AiConfigView, BackendView, Family, LlmIntegrationView, PlatformCaps,
};
use crate::ai::presets::{
    catalogue, law_fallbacks, law_largest_fit, lemma_model_found, provider_named, providers,
    OfflineModelView, OnlineProviderView,
};
use crate::text::laws::law_trimming;
use crate::text::{is_space, trimmed};
use vstd::prelude::*;

verus! {

proof fn lemma_words_differ()
    ensures
        "online"@ != "offline"@,
        "online"@ != "webgpu"@,
        "offline"@ != "webgpu"@,
        "off"@ != "online"@,
        "off"@ != "offline"@,
        "off"@ != "webgpu"@,
        "gpu"@ != "cpu"@,
        "online"@.len() > 0,
        "offline"@.len() > 0,
{
    reveal_strlit("online");
    reveal_strlit("offline");
    reveal_strlit("webgpu");
    reveal_strlit("off");
    reveal_strlit("gpu");
    reveal_strlit("cpu");
    assert("online"@[0] != "webgpu"@[0]);
    assert("gpu"@[0] != "cpu"@[0]);
    assert("offline"@.len() == 7);
    assert("off"@.len() == 3);
}

// ---------------------------------------------------------------------------------------------
// One connection
// ---------------------------------------------------------------------------------------------

/// Whether a text holds anything but white space.
pub open spec fn says_something(v: Option<Seq<char>>) -> bool {
    v is Some && exists|k: int| 0 <= k < v->0.len() && !is_space(#[trigger] v->0[k])
}

/// A variable counts exactly when it holds more than white space, and then without the white space
/// around it.
pub proof fn law_blank_variables_do_not_count(v: Option<Seq<char>>)
    ensures
        filled(v) is Some <==> says_something(v),
        filled(v) is Some ==> filled(v)->0 == trimmed(v->0),
{
    if v is Some {
        let s = v->0;
        law_trimming(s);
        let (i, j) = choose|i: int, j: int|
            0 <= i <= j <= s.len() && trimmed(s) == #[trigger] s.subrange(i, j) && (forall|k: int|
                (0 <= k < i || j <= k < s.len()) ==> is_space(#[trigger] s[k]));
        if trimmed(s).len() > 0 {
            assert(s.subrange(i, j)[0] == s[i]);
        } else if says_something(v) {
            let k = choose|k: int| 0 <= k < s.len() && !is_space(#[trigger] s[k]);
            assert(0 <= k < i || j <= k < s.len());
        }
    }
}

/// The environment asks for a custom service exactly when it names an endpoint and a model; a key
/// alone asks for nothing.
pub proof fn law_environment(
    endpoint: Option<Seq<char>>,
    model: Option<Seq<char>>,
    api_key: Option<Seq<char>>,
    family: Family,
)
    ensures
        ({
            let c = asked_for(endpoint, model, api_key);
            &&& backend_of(family, c) is Some <==> says_something(endpoint) && says_something(model)
            &&& says_something(endpoint) && says_something(model) ==> backend_of(family, c) == Some(
                BackendView::Chat {
                    endpoint: trimmed(endpoint->0),
                    model: trimmed(model->0),
                    api_key: if says_something(api_key) {
                        Some(trimmed(api_key->0))
                    } else {
                        None
                    },
                },
            )
            &&& c.offline_model is None
        }),
{
    lemma_words_differ();
    law_blank_variables_do_not_count(endpoint);
    law_blank_variables_do_not_count(model);
    law_blank_variables_do_not_count(api_key);
}

proof fn lemma_provider_found(list: Seq<OnlineProviderView>, id: Seq<char>)
    ensures
        match provider_named(list, id) {
            Some(p) => exists|k: int|
                0 <= k < list.len() && #[trigger] list[k] == p && p.id == id && forall|j: int|
                    0 <= j < k ==> (#[trigger] list[j]).id != id,
            None => forall|j: int| 0 <= j < list.len() ==> (#[trigger] list[j]).id != id,
        },
    decreases list.len(),
{
    if list.len() > 0 {
        let head = list.drop_last();
        lemma_provider_found(head, id);
        match provider_named(head, id) {
            Some(p) => {
                let k = choose|k: int|
                    0 <= k < head.len() && #[trigger] head[k] == p && p.id == id && forall|j: int|
                        0 <= j < k ==> (#[trigger] head[j]).id != id;
                assert(list[k] == p);
                assert forall|j: int| 0 <= j < k implies (#[trigger] list[j]).id != id by {
                    assert(head[j] == list[j]);
                }
            },
            None => {
                assert forall|j: int| 0 <= j < head.len() implies (#[trigger] list[j]).id != id by {
                    assert(head[j] == list[j]);
                }
                assert(list[list.len() - 1] == list.last());
            },
        }
    }
}

/// Whether a connection leads to a service of its own rather than to a hosted one.
pub open spec fn own_service(provider: Option<Seq<char>>) -> bool {
    provider is None || provider == Some("custom"@)
}

/// Over an online connection to a service of its own, that service answers exactly when both its
/// endpoint and the model are named.
pub proof fn law_own_service(family: Family, c: AiConfigView)
    requires
        c.mode == "online"@,
        own_service(c.provider),
    ensures
        backend_of(family, c) is Some <==> c.endpoint is Some && c.model is Some,
        backend_of(family, c) is Some ==> backend_of(family, c)->0 == (BackendView::Chat {
            endpoint: c.endpoint->0,
            model: c.model->0,
            api_key: c.api_key,
        }),
{
}

/// Over an online connection to a hosted service, that service answers at its own endpoint, with
/// the model that is named or else its default one; a service that is not known does not answer.
pub proof fn law_hosted_service(family: Family, c: AiConfigView, k: int)
    requires
        c.mode == "online"@,
        !own_service(c.provider),
        0 <= k < providers().len(),
    ensures
        providers()[k].id == c.provider->0 ==> backend_of(family, c) == Some(
            BackendView::Chat {
                endpoint: providers()[k].endpoint,
                model: if c.model is Some {
                    c.model->0
                } else {
                    providers()[k].default_model
                },
                api_key: c.api_key,
            },
        ),
        backend_of(family, c) is Some ==> exists|j: int|
            0 <= j < providers().len() && (#[trigger] providers()[j]).id == c.provider->0,
{
    let list = providers();
    let id = c.provider->0;
    lemma_provider_found(list, id);
    lemma_services_differ();
    if list[k].id == id {
        assert(provider_named(list, id) is Some);
        let p = provider_named(list, id)->0;
        let j = choose|j: int| 0 <= j < list.len() && #[trigger] list[j] == p && p.id == id;
        assert(j == k);
    }
}

proof fn lemma_services_differ()
    ensures
        forall|i: int, j: int|
            0 <= i < providers().len() && 0 <= j < providers().len() && (
            #[trigger] providers()[i]).id == (#[trigger] providers()[j]).id ==> i == j,
{
    reveal_strlit("anthropic");
    reveal_strlit("openai");
    reveal_strlit("gemini");
    assert("anthropic"@.len() == 9);
    assert("openai"@[0] != "gemini"@[0]);
}

/// Over an offline connection the named model answers exactly when the family has it; over any
/// other connection nothing does.
pub proof fn law_model_in_this_process(family: Family, c: AiConfigView)
    requires
        c.mode != "online"@,
    ensures
        backend_of(family, c) == (if c.mode == "offline"@ && c.offline_model is Some && has_model(
            family,
            c.offline_model->0,
        ) {
            Some(BackendView::Embedded { model: c.offline_model->0 })
        } else {
            None
        }),
{
}

/// A family has the models of its catalogue and no others.
pub proof fn law_models_of_a_family(id: Seq<char>)
    ensures
        has_model(Family::Qwen3, id) <==> exists|k: int|
            0 <= k < catalogue().len() && (#[trigger] catalogue()[k]).id == id,
{
    let list = catalogue();
    lemma_model_named(list, id);
    if exists|k: int| 0 <= k < list.len() && (#[trigger] list[k]).id == id {
        let k = choose|k: int| 0 <= k < list.len() && (#[trigger] list[k]).id == id;
        lemma_model_found(list, k);
    }
}

proof fn lemma_model_named(list: Seq<OfflineModelView>, id: Seq<char>)
    ensures
        crate::ai::presets::model_named(list, id) is Some ==> exists|k: int|
            0 <= k < list.len() && (#[trigger] list[k]).id == id,
    decreases list.len(),
{
    if list.len() > 0 {
        let head = list.drop_last();
        lemma_model_named(head, id);
        if crate::ai::presets::model_named(head, id) is Some {
            let k = choose|k: int| 0 <= k < head.len() && (#[trigger] head[k]).id == id;
            assert(list[k].id == id);
        } else {
            assert(list[list.len() - 1] == list.last());
        }
    }
}

// ---------------------------------------------------------------------------------------------
// The platform
// ---------------------------------------------------------------------------------------------

/// The browser has the last word on what it knows, and the server on its own process; what the
/// browser does not know is taken from the server.
pub proof fn law_browser_and_server(server: PlatformCaps, browser: PlatformCaps)
    ensures
        ({
            let both = merged(server, browser);
            &&& both.embedded == server.embedded
            &&& both.gpu == server.gpu
            &&& both.webgpu == browser.webgpu
            &&& browser.vram_mb is Some ==> both.vram_mb == browser.vram_mb
            &&& browser.vram_mb is None ==> both.vram_mb == server.vram_mb
            &&& browser.ram_mb is Some ==> both.ram_mb == browser.ram_mb
            &&& browser.ram_mb is None ==> both.ram_mb == server.ram_mb
            &&& browser.cpu_cores is Some ==> both.cpu_cores == browser.cpu_cores
            &&& browser.cpu_cores is None ==> both.cpu_cores == server.cpu_cores
        }),
{
}

/// Whether a model of an integration runs on a graphics processor.
pub open spec fn on_graphics(kind: Seq<char>, device: Seq<char>) -> bool {
    kind == "webgpu"@ || (kind == "offline"@ && device == "gpu"@)
}

/// The video memory decides which of the newer models is recommended: the largest that is chosen
/// without being asked for and fits, and the smallest where none fits.
pub proof fn law_video_memory_decides(kind: Seq<char>, device: Seq<char>, caps: PlatformCaps)
    requires
        on_graphics(kind, device),
        caps.vram_mb is Some,
    ensures
        recommended(Family::Qwen3, kind, device, caps) == (if caps.vram_mb->0 >= 3000 {
            "qwen3-4b"@
        } else if caps.vram_mb->0 >= 1600 {
            "qwen3-1.7b"@
        } else {
            "qwen3-0.6b"@
        }),
{
    let v = caps.vram_mb->0;
    let webgpu = kind == "webgpu"@;
    lemma_catalogue();
    law_largest_fit(v, webgpu);
    lemma_smallest(webgpu);
    let list = catalogue();
    assert(list[0].min_vram_mb == 1000 && list[1].min_vram_mb == 1600 && list[2].min_vram_mb
        == 3000);
}

proof fn lemma_catalogue()
    ensures
        catalogue().len() == 4,
        forall|k: int| 0 <= k < 4 ==> (#[trigger] catalogue()[k]).webgpu_id.len() > 0,
        forall|k: int| 0 <= k < 4 ==> (#[trigger] catalogue()[k]).auto == (k < 3),
        forall|k: int| 0 <= k < 4 ==> (#[trigger] catalogue()[k]).default == (k == 1),
{
    reveal_strlit("Qwen3-0.6B-q4f16_1-MLC");
    reveal_strlit("Qwen3-1.7B-q4f16_1-MLC");
    reveal_strlit("Qwen3-4B-q4f16_1-MLC");
    reveal_strlit("Qwen3-8B-q4f16_1-MLC");
}

proof fn lemma_smallest(webgpu: bool)
    ensures
        crate::ai::presets::smallest(webgpu).id == "qwen3-0.6b"@,
        crate::ai::presets::smallest_auto().id == "qwen3-0.6b"@,
        crate::ai::presets::default_auto().id == "qwen3-1.7b"@,
{
    let list = catalogue();
    lemma_catalogue();
    law_fallbacks(webgpu);
    crate::ai::presets::law_smallest(webgpu);
    assert(list[0].min_vram_mb == 1000 && list[1].min_vram_mb == 1600 && list[2].min_vram_mb
        == 3000 && list[3].min_vram_mb == 6000);
}

/// Where nothing is known of the video memory, the middle one of the newer models is recommended;
/// on the processor it takes many cores for it, and the smallest one is recommended otherwise.
pub proof fn law_recommended_without_video_memory(
    kind: Seq<char>,
    device: Seq<char>,
    caps: PlatformCaps,
)
    ensures
        on_graphics(kind, device) && caps.vram_mb is None ==> recommended(
            Family::Qwen3,
            kind,
            device,
            caps,
        ) == "qwen3-1.7b"@,
        !on_graphics(kind, device) ==> recommended(Family::Qwen3, kind, device, caps) == (if kind
            == "offline"@ && caps.cpu_cores is Some && caps.cpu_cores->0 >= 8 {
            "qwen3-1.7b"@
        } else {
            "qwen3-0.6b"@
        }),
{
    lemma_smallest(false);
}

/// The same of the older models, of which there are four.
pub proof fn law_older_models(kind: Seq<char>, device: Seq<char>, caps: PlatformCaps)
    ensures
        ({
            let id = recommended(Family::Qwen25, kind, device, caps);
            let known = caps.vram_mb is Some;
            let vram = caps.vram_mb->0;
            let many = kind == "offline"@ && caps.cpu_cores is Some && caps.cpu_cores->0 >= 8;
            let graphics = on_graphics(kind, device);
            &&& graphics && known && vram >= 12000 ==> id == "qwen2.5-7b"@
            &&& graphics && known && 7000 <= vram < 12000 ==> id == "qwen2.5-3b"@
            &&& graphics && known && 4000 <= vram < 7000 ==> id == "qwen2.5-1.5b"@
            &&& graphics && known && vram < 4000 ==> id == "qwen2.5-0.5b"@
            &&& graphics && !known ==> id == "qwen2.5-3b"@
            &&& !graphics && many ==> id == "qwen2.5-1.5b"@
            &&& !graphics && !many ==> id == "qwen2.5-0.5b"@
        }),
{
}

// ---------------------------------------------------------------------------------------------
// Integrations
// ---------------------------------------------------------------------------------------------

/// A service is reached from every platform, a model in this process runs where there is an engine
/// and the device it asks for, one in the browser where the browser has a graphics processor, and
/// anything else nowhere.
pub proof fn law_where_an_integration_runs(i: LlmIntegrationView, caps: PlatformCaps)
    ensures
        i.kind == "online"@ ==> runs_on(i, caps),
        i.kind == "offline"@ && i.device == "gpu"@ ==> (runs_on(i, caps) <==> caps.embedded
            && caps.gpu),
        i.kind == "offline"@ && i.device != "gpu"@ ==> (runs_on(i, caps) <==> caps.embedded),
        i.kind == "webgpu"@ ==> (runs_on(i, caps) <==> caps.webgpu),
        i.kind != "online"@ && i.kind != "offline"@ && i.kind != "webgpu"@ ==> !runs_on(i, caps),
{
    lemma_words_differ();
}

/// An integration is filled in when something would answer for it, and a hosted service has a key
/// besides; one in the browser needs a model, and one of no known kind is never filled in.
pub proof fn law_what_is_filled_in(family: Family, i: LlmIntegrationView)
    ensures
        i.kind == "online"@ && own_service(i.provider) ==> (is_configured(family, i)
            <==> i.endpoint is Some && i.model is Some),
        i.kind == "online"@ && !own_service(i.provider) ==> (is_configured(family, i)
            <==> says_something(i.api_key) && exists|k: int|
            0 <= k < providers().len() && (#[trigger] providers()[k]).id == i.provider->0),
        i.kind == "offline"@ ==> (is_configured(family, i) <==> i.offline_model is Some
            && has_model(family, i.offline_model->0)),
        i.kind == "webgpu"@ ==> (is_configured(family, i) <==> i.model is Some
            || i.offline_model is Some),
        i.kind != "online"@ && i.kind != "offline"@ && i.kind != "webgpu"@ ==> !is_configured(
            family,
            i,
        ),
{
    lemma_words_differ();
    law_blank_variables_do_not_count(i.api_key);
    if i.provider is Some {
        lemma_provider_found(providers(), i.provider->0);
    }
}

/// The connection of an integration carries all that the integration says of it, and one in the
/// browser is off.
pub proof fn law_connection(i: LlmIntegrationView)
    ensures
        ({
            let c = connection(i);
            &&& c.provider == i.provider
            &&& c.endpoint == i.endpoint
            &&& c.model == i.model
            &&& c.api_key == i.api_key
            &&& c.offline_model == i.offline_model
            &&& c.mode == "online"@ <==> i.kind == "online"@
            &&& c.mode == "offline"@ <==> i.kind == "offline"@
        }),
{
    lemma_words_differ();
}

// ---------------------------------------------------------------------------------------------
// The registry
// ---------------------------------------------------------------------------------------------

/// Whether an integration runs a model of the catalogue rather than asking a service.
pub open spec fn runs_a_model(i: LlmIntegrationView) -> bool {
    i.kind == "offline"@ || i.kind == "webgpu"@
}

/// Choosing a model for a platform gives every integration that runs one the recommended model, and
/// leaves a service alone.
pub proof fn law_tuned(family: Family, i: LlmIntegrationView, caps: PlatformCaps)
    ensures
        !runs_a_model(i) ==> tuned(family, i, caps) == i,
        runs_a_model(i) ==> tuned(family, i, caps) == (LlmIntegrationView {
            offline_model: Some(recommended(family, i.kind, i.device, caps)),
            ..i
        }),
{
}

/// Healing touches exactly the integrations that run a model which the family does not have, and
/// gives those the recommended one.
pub proof fn law_healed(family: Family, i: LlmIntegrationView, caps: PlatformCaps)
    ensures
        ({
            let lost = runs_a_model(i) && i.offline_model is Some && !has_model(
                family,
                i.offline_model->0,
            );
            &&& !lost ==> healed(family, i, caps) == i
            &&& lost ==> healed(family, i, caps) == (LlmIntegrationView {
                offline_model: Some(recommended(family, i.kind, i.device, caps)),
                ..i
            })
        }),
{
}

/// The integration that is used is the first that can run on the platform and is filled in.
pub proof fn law_first_of_use(
    family: Family,
    list: Seq<LlmIntegrationView>,
    caps: PlatformCaps,
    k: int,
)
    requires
        0 <= k < list.len(),
    ensures
        runs_on(list[k], caps) && is_configured(family, list[k]) && (forall|j: int|
            0 <= j < k ==> !(runs_on(#[trigger] list[j], caps) && is_configured(family, list[j])))
            ==> active(family, list, caps) == Some(list[k]),
        active(family, list, caps) is None ==> !(runs_on(list[k], caps) && is_configured(
            family,
            list[k],
        )),
{
    super::law_active_is_first_usable(family, list, caps);
    assert(is_usable(family, list[k], caps) == (runs_on(list[k], caps) && is_configured(
        family,
        list[k],
    )));
    match active(family, list, caps) {
        Some(i) => {
            let n = choose|n: int|
                0 <= n < list.len() && #[trigger] list[n] == i && is_usable(family, i, caps)
                    && forall|j: int| 0 <= j < n ==> !is_usable(family, #[trigger] list[j], caps);
            if n < k {
                assert(is_usable(family, list[n], caps));
            }
        },
        None => {},
    }
}

/// Whether something answers here for an integration on a platform.
pub open spec fn answers(family: Family, i: LlmIntegrationView, caps: PlatformCaps) -> bool {
    runs_on(i, caps) && is_configured(family, i) && i.kind != "webgpu"@
}

/// What answers is what answers for the first integration that can run on the platform, is filled in
/// and does not run in the browser.
pub proof fn law_first_to_answer(
    family: Family,
    list: Seq<LlmIntegrationView>,
    caps: PlatformCaps,
    k: int,
)
    requires
        0 <= k < list.len(),
    ensures
        answers(family, list[k], caps) && (forall|j: int|
            0 <= j < k ==> !answers(family, #[trigger] list[j], caps)) ==> answering(
            family,
            list,
            caps,
        ) == backend_of(family, connection(list[k])) && answering(family, list, caps) is Some,
        answers(family, list[k], caps) ==> answering(family, list, caps) is Some,
        (forall|j: int| 0 <= j < list.len() ==> !answers(family, #[trigger] list[j], caps))
            ==> answering(family, list, caps) is None,
    decreases list.len(),
{
    let head = list.drop_last();
    let last = list.last();
    assert forall|j: int| 0 <= j < head.len() implies #[trigger] head[j] == list[j] by {}
    assert(last == list[list.len() - 1]);
    if answers(family, last, caps) {
        super::lemma_usable_answers(family, last, caps);
    }
    if last.kind == "webgpu"@ {
        law_browser_answers_for_itself(family, last);
    }
    if k < head.len() {
        law_first_to_answer(family, head, caps, k);
        if forall|j: int| 0 <= j < list.len() ==> !answers(family, #[trigger] list[j], caps) {
            assert(!answers(family, list[list.len() - 1], caps));
            assert forall|j: int| 0 <= j < head.len() implies !answers(
                family,
                #[trigger] head[j],
                caps,
            ) by {
                assert(!answers(family, list[j], caps));
            }
        }
    } else {
        if head.len() > 0 {
            law_first_to_answer(family, head, caps, 0);
        }
        if forall|j: int| 0 <= j < k ==> !answers(family, #[trigger] list[j], caps) {
            assert forall|j: int| 0 <= j < head.len() implies !answers(
                family,
                #[trigger] head[j],
                caps,
            ) by {
                assert(!answers(family, list[j], caps));
            }
            assert(answering(family, head, caps) is None);
        }
        if forall|j: int| 0 <= j < list.len() ==> !answers(family, #[trigger] list[j], caps) {
            assert(!answers(family, list[list.len() - 1], caps));
        }
    }
}

/// A new owner's registry prefers what runs here over services, holds no key, and can be filled in:
/// every model in it is one of the family, and every hosted service a known one.
pub proof fn law_first_registry(family: Family, k: int)
    requires
        0 <= k < first_registry(family).integrations.len(),
    ensures
        ({
            let list = first_registry(family).integrations;
            let i = list[k];
            &&& !first_registry(family).auto
            &&& runs_a_model(i) <==> k < 3
            &&& !runs_a_model(i) ==> i.kind == "online"@
            &&& i.api_key is None
            &&& runs_a_model(i) ==> i.offline_model is Some && has_model(family, i.offline_model->0)
            &&& i.kind == "online"@ && !own_service(i.provider) ==> i.id == i.provider->0
                && exists|j: int| 0 <= j < providers().len() && (#[trigger] providers()[j]).id
                == i.id && providers()[j].label == i.name
            &&& i.kind == "online"@ && own_service(i.provider) ==> is_configured(family, i)
            &&& i.device == "gpu"@ <==> k == 0
        }),
{
    let list = first_registry(family).integrations;
    lemma_words_differ();
    lemma_smallest(false);
    law_fallbacks(false);
    reveal_strlit("custom");
    reveal_strlit("anthropic");
    reveal_strlit("gemini");
    reveal_strlit("openai");
    reveal_strlit("gpu");
    assert("custom"@.len() == 6 && "custom"@[0] == 'c');
    assert("gpu"@.len() == 3);
    assert("openai"@[0] == 'o');
    assert("gemini"@[0] == 'g');
    assert("anthropic"@.len() == 9);
    super::lemma_has_contained(crate::ai::presets::default_auto());
    super::lemma_has_contained(crate::ai::presets::smallest_auto());
    assert(providers()[0].id == "anthropic"@);
    assert(providers()[1].id == "openai"@);
    assert(providers()[2].id == "gemini"@);
}

} // verus!
