//! The models and services that can be chosen.
use crate::text::{group_text, lemma_found_stays, lemma_take_step, opt_view, same, views};
use vstd::prelude::*;

verus! {

broadcast use group_text;

/// A hosted service with a chat interface, which needs an API key.
#[derive(Debug, Clone, Copy)]
pub struct OnlineProvider {
    pub id: &'static str,
    pub label: &'static str,
    pub endpoint: &'static str,
    pub default_model: &'static str,
    /// Where an API key can be had.
    pub key_url: &'static str,
}

#[verifier::ext_equal]
pub struct OnlineProviderView {
    pub id: Seq<char>,
    pub label: Seq<char>,
    pub endpoint: Seq<char>,
    pub default_model: Seq<char>,
    pub key_url: Seq<char>,
}

impl View for OnlineProvider {
    type V = OnlineProviderView;

    open spec fn view(&self) -> OnlineProviderView {
        OnlineProviderView {
            id: self.id@,
            label: self.label@,
            endpoint: self.endpoint@,
            default_model: self.default_model@,
            key_url: self.key_url@,
        }
    }
}

/// The hosted services.
pub open spec fn providers() -> Seq<OnlineProviderView> {
    seq![
        OnlineProviderView {
            id: "anthropic"@,
            label: "Anthropic"@,
            endpoint: "https://api.anthropic.com/v1/chat/completions"@,
            default_model: "3-5-haiku-latest"@,
            key_url: "https://console.anthropic.com/settings/keys"@,
        },
        OnlineProviderView {
            id: "openai"@,
            label: "ChatGPT (OpenAI)"@,
            endpoint: "https://api.openai.com/v1/chat/completions"@,
            default_model: "gpt-4o-mini"@,
            key_url: "https://platform.openai.com/api-keys"@,
        },
        OnlineProviderView {
            id: "gemini"@,
            label: "Gemini (Google)"@,
            endpoint: "https://generativelanguage.googleapis.com/v1beta/openai/chat/completions"@,
            default_model: "gemini-1.5-flash"@,
            key_url: "https://aistudio.google.com/apikey"@,
        },
    ]
}

/// The hosted services.
pub fn online_providers() -> (r: Vec<OnlineProvider>)
    ensures
        views(r@) == providers(),
{
    let mut r: Vec<OnlineProvider> = Vec::new();
    r.push(
        OnlineProvider {
            id: "anthropic",
            label: "Anthropic",
            endpoint: "https://api.anthropic.com/v1/chat/completions",
            default_model: "3-5-haiku-latest",
            key_url: "https://console.anthropic.com/settings/keys",
        },
    );
    r.push(
        OnlineProvider {
            id: "openai",
            label: "ChatGPT (OpenAI)",
            endpoint: "https://api.openai.com/v1/chat/completions",
            default_model: "gpt-4o-mini",
            key_url: "https://platform.openai.com/api-keys",
        },
    );
    r.push(
        OnlineProvider {
            id: "gemini",
            label: "Gemini (Google)",
            endpoint: "https://generativelanguage.googleapis.com/v1beta/openai/chat/completions",
            default_model: "gemini-1.5-flash",
            key_url: "https://aistudio.google.com/apikey",
        },
    );
    assert(views(r@) =~= providers());
    r
}

/// The first service of a list with an id.
pub open spec fn provider_named(list: Seq<OnlineProviderView>, id: Seq<char>) -> Option<
    OnlineProviderView,
>
    decreases list.len(),
{
    if list.len() == 0 {
        None
    } else if provider_named(list.drop_last(), id) is Some {
        provider_named(list.drop_last(), id)
    } else if list.last().id == id {
        Some(list.last())
    } else {
        None
    }
}

/// The hosted service with an id.
pub fn online_provider(id: &str) -> (r: Option<OnlineProvider>)
    ensures
        opt_view(r) == provider_named(providers(), id@),
{
    let list: Vec<OnlineProvider> = online_providers();
    let ghost all = views(list@);
    let mut i: usize = 0;
    while i < list.len()
        invariant
            i <= list@.len(),
            all == views(list@),
            all == providers(),
            provider_named(all.take(i as int), id@) is None,
        decreases list@.len() - i,
    {
        proof {
            lemma_take_step(all, i as int);
        }
        if same(list[i].id, id) {
            proof {
                lemma_found_stays(|l: Seq<OnlineProviderView>| provider_named(l, id@), all, i + 1);
            }
            return Some(list[i]);
        }
        i += 1;
    }
    assert(all.take(i as int) =~= all);
    None
}

/// A small model that runs without a service.
#[derive(Debug, Clone, Copy)]
pub struct OfflineModel {
    pub id: &'static str,
    pub label: &'static str,
    /// Where the weights of the embedded engine are.
    pub repo: &'static str,
    pub file: &'static str,
    pub tokenizer_repo: &'static str,
    /// The size of the download.
    pub size_mb: u32,
    /// The model's id in the browser; empty where it does not run there.
    pub webgpu_id: &'static str,
    /// The video memory that it needs.
    pub min_vram_mb: u32,
    /// Whether it may be chosen without being asked for.
    pub auto: bool,
    /// Whether it is chosen where the video memory is not known.
    pub default: bool,
}

#[verifier::ext_equal]
pub struct OfflineModelView {
    pub id: Seq<char>,
    pub label: Seq<char>,
    pub repo: Seq<char>,
    pub file: Seq<char>,
    pub tokenizer_repo: Seq<char>,
    pub size_mb: u32,
    pub webgpu_id: Seq<char>,
    pub min_vram_mb: u32,
    pub auto: bool,
    pub default: bool,
}

impl View for OfflineModel {
    type V = OfflineModelView;

    open spec fn view(&self) -> OfflineModelView {
        OfflineModelView {
            id: self.id@,
            label: self.label@,
            repo: self.repo@,
            file: self.file@,
            tokenizer_repo: self.tokenizer_repo@,
            size_mb: self.size_mb,
            webgpu_id: self.webgpu_id@,
            min_vram_mb: self.min_vram_mb,
            auto: self.auto,
            default: self.default,
        }
    }
}

/// The models, from small to large.
pub open spec fn catalogue() -> Seq<OfflineModelView> {
    seq![
        OfflineModelView {
            id: "qwen3-0.6b"@,
            label: "Qwen3 0.6B - fastest, lightest (~600 MB)"@,
            repo: "Qwen/Qwen3-0.6B-GGUF"@,
            file: "Qwen3-0.6B-Q4_K_M.gguf"@,
            tokenizer_repo: "Qwen/Qwen3-0.6B"@,
            size_mb: 600,
            webgpu_id: "Qwen3-0.6B-q4f16_1-MLC"@,
            min_vram_mb: 1000,
            auto: true,
            default: false,
        },
        OfflineModelView {
            id: "qwen3-1.7b"@,
            label: "Qwen3 1.7B - balanced (~1.2 GB)"@,
            repo: "Qwen/Qwen3-1.7B-GGUF"@,
            file: "Qwen3-1.7B-Q4_K_M.gguf"@,
            tokenizer_repo: "Qwen/Qwen3-1.7B"@,
            size_mb: 1200,
            webgpu_id: "Qwen3-1.7B-q4f16_1-MLC"@,
            min_vram_mb: 1600,
            auto: true,
            default: true,
        },
        OfflineModelView {
            id: "qwen3-4b"@,
            label: "Qwen3 4B - recommended: ~7B-class quality, ~2× faster (~2.5 GB; GPU/WebGPU)"@,
            repo: "Qwen/Qwen3-4B-GGUF"@,
            file: "Qwen3-4B-Q4_K_M.gguf"@,
            tokenizer_repo: "Qwen/Qwen3-4B"@,
            size_mb: 2500,
            webgpu_id: "Qwen3-4B-q4f16_1-MLC"@,
            min_vram_mb: 3000,
            auto: true,
            default: false,
        },
        OfflineModelView {
            id: "qwen3-8b"@,
            label: "Qwen3 8B - highest quality, slower (~5 GB; hand-pick, needs a big GPU)"@,
            repo: "Qwen/Qwen3-8B-GGUF"@,
            file: "Qwen3-8B-Q4_K_M.gguf"@,
            tokenizer_repo: "Qwen/Qwen3-8B"@,
            size_mb: 5000,
            webgpu_id: "Qwen3-8B-q4f16_1-MLC"@,
            min_vram_mb: 6000,
            auto: false,
            default: false,
        },
    ]
}

/// The models, from small to large.
pub fn offline_models() -> (r: Vec<OfflineModel>)
    ensures
        views(r@) == catalogue(),
{
    let mut r: Vec<OfflineModel> = Vec::new();
    r.push(
        OfflineModel {
            id: "qwen3-0.6b",
            label: "Qwen3 0.6B - fastest, lightest (~600 MB)",
            repo: "Qwen/Qwen3-0.6B-GGUF",
            file: "Qwen3-0.6B-Q4_K_M.gguf",
            tokenizer_repo: "Qwen/Qwen3-0.6B",
            size_mb: 600,
            webgpu_id: "Qwen3-0.6B-q4f16_1-MLC",
            min_vram_mb: 1000,
            auto: true,
            default: false,
        },
    );
    r.push(
        OfflineModel {
            id: "qwen3-1.7b",
            label: "Qwen3 1.7B - balanced (~1.2 GB)",
            repo: "Qwen/Qwen3-1.7B-GGUF",
            file: "Qwen3-1.7B-Q4_K_M.gguf",
            tokenizer_repo: "Qwen/Qwen3-1.7B",
            size_mb: 1200,
            webgpu_id: "Qwen3-1.7B-q4f16_1-MLC",
            min_vram_mb: 1600,
            auto: true,
            default: true,
        },
    );
    r.push(
        OfflineModel {
            id: "qwen3-4b",
            label: "Qwen3 4B - recommended: ~7B-class quality, ~2× faster (~2.5 GB; GPU/WebGPU)",
            repo: "Qwen/Qwen3-4B-GGUF",
            file: "Qwen3-4B-Q4_K_M.gguf",
            tokenizer_repo: "Qwen/Qwen3-4B",
            size_mb: 2500,
            webgpu_id: "Qwen3-4B-q4f16_1-MLC",
            min_vram_mb: 3000,
            auto: true,
            default: false,
        },
    );
    r.push(
        OfflineModel {
            id: "qwen3-8b",
            label: "Qwen3 8B - highest quality, slower (~5 GB; hand-pick, needs a big GPU)",
            repo: "Qwen/Qwen3-8B-GGUF",
            file: "Qwen3-8B-Q4_K_M.gguf",
            tokenizer_repo: "Qwen/Qwen3-8B",
            size_mb: 5000,
            webgpu_id: "Qwen3-8B-q4f16_1-MLC",
            min_vram_mb: 6000,
            auto: false,
            default: false,
        },
    );
    assert(views(r@) =~= catalogue());
    r
}

/// The first model of a list with an id.
pub open spec fn model_named(list: Seq<OfflineModelView>, id: Seq<char>) -> Option<OfflineModelView>
    decreases list.len(),
{
    if list.len() == 0 {
        None
    } else if model_named(list.drop_last(), id) is Some {
        model_named(list.drop_last(), id)
    } else if list.last().id == id {
        Some(list.last())
    } else {
        None
    }
}

/// A model of a list is found by its id.
pub proof fn lemma_model_found(list: Seq<OfflineModelView>, k: int)
    requires
        0 <= k < list.len(),
    ensures
        model_named(list, list[k].id) is Some,
    decreases list.len(),
{
    if k < list.len() - 1 {
        lemma_model_found(list.drop_last(), k);
        assert(list.drop_last()[k] == list[k]);
    }
}

/// The model with an id.
pub fn offline_model(id: &str) -> (r: Option<OfflineModel>)
    ensures
        opt_view(r) == model_named(catalogue(), id@),
{
    let list: Vec<OfflineModel> = offline_models();
    let ghost all = views(list@);
    let mut i: usize = 0;
    while i < list.len()
        invariant
            i <= list@.len(),
            all == views(list@),
            all == catalogue(),
            model_named(all.take(i as int), id@) is None,
        decreases list@.len() - i,
    {
        proof {
            lemma_take_step(all, i as int);
        }
        if same(list[i].id, id) {
            proof {
                lemma_found_stays(|l: Seq<OfflineModelView>| model_named(l, id@), all, i + 1);
            }
            return Some(list[i]);
        }
        i += 1;
    }
    assert(all.take(i as int) =~= all);
    None
}

/// The first model of a list that needs the least memory.
pub open spec fn least(list: Seq<OfflineModelView>) -> Option<OfflineModelView>
    decreases list.len(),
{
    if list.len() == 0 {
        None
    } else {
        match least(list.drop_last()) {
            Some(m) => if list.last().min_vram_mb < m.min_vram_mb {
                Some(list.last())
            } else {
                Some(m)
            },
            None => Some(list.last()),
        }
    }
}

/// The last model of a list that needs the most memory.
pub open spec fn greatest(list: Seq<OfflineModelView>) -> Option<OfflineModelView>
    decreases list.len(),
{
    if list.len() == 0 {
        None
    } else {
        match greatest(list.drop_last()) {
            Some(m) => if list.last().min_vram_mb >= m.min_vram_mb {
                Some(list.last())
            } else {
                Some(m)
            },
            None => Some(list.last()),
        }
    }
}

/// Whether a model may be chosen: without being asked for, and in the browser, where this is
/// wanted.
pub open spec fn eligible(m: OfflineModelView, auto_only: bool, webgpu_only: bool) -> bool {
    (!auto_only || m.auto) && (!webgpu_only || m.webgpu_id.len() > 0)
}

/// The models of a list that may be chosen and need no more than `vram` megabytes of memory.
pub open spec fn choices(
    list: Seq<OfflineModelView>,
    auto_only: bool,
    webgpu_only: bool,
    vram: u32,
) -> Seq<OfflineModelView>
    decreases list.len(),
{
    if list.len() == 0 {
        Seq::empty()
    } else {
        let head = choices(list.drop_last(), auto_only, webgpu_only, vram);
        if eligible(list.last(), auto_only, webgpu_only) && list.last().min_vram_mb <= vram {
            head.push(list.last())
        } else {
            head
        }
    }
}

fn list_choices(auto_only: bool, webgpu_only: bool, vram: u32) -> (r: Vec<OfflineModel>)
    ensures
        views(r@) == choices(catalogue(), auto_only, webgpu_only, vram),
{
    let list: Vec<OfflineModel> = offline_models();
    let ghost all = views(list@);
    let mut out: Vec<OfflineModel> = Vec::new();
    let mut i: usize = 0;
    while i < list.len()
        invariant
            i <= list@.len(),
            all == views(list@),
            views(out@) == choices(all.take(i as int), auto_only, webgpu_only, vram),
        decreases list@.len() - i,
    {
        proof {
            lemma_take_step(all, i as int);
        }
        let m: OfflineModel = list[i];
        if (!auto_only || m.auto) && (!webgpu_only || !m.webgpu_id.is_empty()) && m.min_vram_mb
            <= vram {
            out.push(m);
        }
        i += 1;
    }
    assert(all.take(i as int) =~= all);
    out
}

fn find_least(list: &Vec<OfflineModel>) -> (r: Option<OfflineModel>)
    ensures
        opt_view(r) == least(views(list@)),
{
    let ghost all = views(list@);
    let mut best: Option<OfflineModel> = None;
    let mut i: usize = 0;
    while i < list.len()
        invariant
            i <= list@.len(),
            all == views(list@),
            opt_view(best) == least(all.take(i as int)),
        decreases list@.len() - i,
    {
        proof {
            lemma_take_step(all, i as int);
        }
        match best {
            Some(m) => {
                if list[i].min_vram_mb < m.min_vram_mb {
                    best = Some(list[i]);
                }
            },
            None => {
                best = Some(list[i]);
            },
        }
        i += 1;
    }
    assert(all.take(i as int) =~= all);
    best
}

fn find_greatest(list: &Vec<OfflineModel>) -> (r: Option<OfflineModel>)
    ensures
        opt_view(r) == greatest(views(list@)),
{
    let ghost all = views(list@);
    let mut best: Option<OfflineModel> = None;
    let mut i: usize = 0;
    while i < list.len()
        invariant
            i <= list@.len(),
            all == views(list@),
            opt_view(best) == greatest(all.take(i as int)),
        decreases list@.len() - i,
    {
        proof {
            lemma_take_step(all, i as int);
        }
        match best {
            Some(m) => {
                if list[i].min_vram_mb >= m.min_vram_mb {
                    best = Some(list[i]);
                }
            },
            None => {
                best = Some(list[i]);
            },
        }
        i += 1;
    }
    assert(all.take(i as int) =~= all);
    best
}

/// The largest model that fits into `vram` megabytes and may be chosen without being asked for.
pub open spec fn largest_fit(vram: u32, webgpu_only: bool) -> Option<OfflineModelView> {
    greatest(choices(catalogue(), true, webgpu_only, vram))
}

/// The smallest model, in the browser where this is wanted.
pub open spec fn smallest(webgpu_only: bool) -> OfflineModelView {
    match least(choices(catalogue(), false, webgpu_only, u32::MAX)) {
        Some(m) => m,
        None => smallest_auto(),
    }
}

/// The smallest model that may be chosen without being asked for.
pub open spec fn smallest_auto() -> OfflineModelView {
    match least(choices(catalogue(), true, false, u32::MAX)) {
        Some(m) => m,
        None => catalogue()[0],
    }
}

/// The first model of a list that is marked as the default.
pub open spec fn marked(list: Seq<OfflineModelView>) -> Option<OfflineModelView>
    decreases list.len(),
{
    if list.len() == 0 {
        None
    } else if marked(list.drop_last()) is Some {
        marked(list.drop_last())
    } else if list.last().default {
        Some(list.last())
    } else {
        None
    }
}

/// The model for a platform of which nothing is known.
pub open spec fn default_auto() -> OfflineModelView {
    match marked(catalogue()) {
        Some(m) => m,
        None => smallest_auto(),
    }
}

/// The largest model that fits into `vram` megabytes, or else the smallest there is.
pub fn fitting_model(vram: u32, webgpu_only: bool) -> (r: OfflineModel)
    ensures
        r@ == (match largest_fit(vram, webgpu_only) {
            Some(m) => m,
            None => smallest(webgpu_only),
        }),
{
    match find_greatest(&list_choices(true, webgpu_only, vram)) {
        Some(m) => m,
        None => match find_least(&list_choices(false, webgpu_only, u32::MAX)) {
            Some(m) => m,
            None => smallest_auto_model(),
        },
    }
}

/// The smallest model that may be chosen without being asked for.
pub fn smallest_auto_model() -> (r: OfflineModel)
    ensures
        r@ == smallest_auto(),
{
    match find_least(&list_choices(true, false, u32::MAX)) {
        Some(m) => m,
        None => {
            let list: Vec<OfflineModel> = offline_models();
            assert(views(list@).len() == 4);
            assert(views(list@)[0] == list@[0]@);
            list[0]
        },
    }
}

/// The model for a platform of which nothing is known.
pub fn default_auto_model() -> (r: OfflineModel)
    ensures
        r@ == default_auto(),
{
    let list: Vec<OfflineModel> = offline_models();
    let ghost all = views(list@);
    let mut i: usize = 0;
    while i < list.len()
        invariant
            i <= list@.len(),
            all == views(list@),
            all == catalogue(),
            marked(all.take(i as int)) is None,
        decreases list@.len() - i,
    {
        proof {
            lemma_take_step(all, i as int);
        }
        if list[i].default {
            proof {
                lemma_found_stays(|l: Seq<OfflineModelView>| marked(l), all, i + 1);
            }
            return list[i];
        }
        i += 1;
    }
    assert(all.take(i as int) =~= all);
    smallest_auto_model()
}

// ---------------------------------------------------------------------------------------------
// Every choice is a model of the catalogue
// ---------------------------------------------------------------------------------------------

proof fn lemma_choices_within(
    list: Seq<OfflineModelView>,
    auto_only: bool,
    webgpu_only: bool,
    vram: u32,
    m: OfflineModelView,
)
    requires
        choices(list, auto_only, webgpu_only, vram).contains(m),
    ensures
        list.contains(m),
        eligible(m, auto_only, webgpu_only),
        m.min_vram_mb <= vram,
    decreases list.len(),
{
    let all = choices(list, auto_only, webgpu_only, vram);
    let i = choose|i: int| 0 <= i < all.len() && all[i] == m;
    if list.len() > 0 {
        let head = choices(list.drop_last(), auto_only, webgpu_only, vram);
        if i < head.len() {
            assert(head[i] == m);
            lemma_choices_within(list.drop_last(), auto_only, webgpu_only, vram, m);
            let k = choose|k: int| 0 <= k < list.len() - 1 && list.drop_last()[k] == m;
            assert(list[k] == m);
        } else {
            assert(list[list.len() - 1] == m);
        }
    }
}

proof fn lemma_choices_hold(
    list: Seq<OfflineModelView>,
    auto_only: bool,
    webgpu_only: bool,
    vram: u32,
    k: int,
)
    requires
        0 <= k < list.len(),
        eligible(list[k], auto_only, webgpu_only),
        list[k].min_vram_mb <= vram,
    ensures
        choices(list, auto_only, webgpu_only, vram).contains(list[k]),
    decreases list.len(),
{
    let all = choices(list, auto_only, webgpu_only, vram);
    let head = choices(list.drop_last(), auto_only, webgpu_only, vram);
    if k < list.len() - 1 {
        lemma_choices_hold(list.drop_last(), auto_only, webgpu_only, vram, k);
        let i = choose|i: int| 0 <= i < head.len() && head[i] == list[k];
        assert(all[i] == list[k]);
    } else {
        assert(all[all.len() - 1] == list[k]);
    }
}

proof fn lemma_least(list: Seq<OfflineModelView>)
    ensures
        least(list) is Some <==> list.len() > 0,
        least(list) is Some ==> list.contains(least(list)->0) && forall|i: int|
            0 <= i < list.len() ==> least(list)->0.min_vram_mb <= (#[trigger] list[i]).min_vram_mb,
    decreases list.len(),
{
    if list.len() > 0 {
        let head = list.drop_last();
        lemma_least(head);
        assert(list[list.len() - 1] == list.last());
        if head.len() > 0 {
            let i = choose|i: int| 0 <= i < head.len() && head[i] == least(head)->0;
            assert(list[i] == head[i]);
        }
        assert forall|i: int| 0 <= i < list.len() implies least(list)->0.min_vram_mb <= (
        #[trigger] list[i]).min_vram_mb by {
            if i < head.len() {
                assert(head[i] == list[i]);
            }
        }
    }
}

proof fn lemma_greatest(list: Seq<OfflineModelView>)
    ensures
        greatest(list) is Some <==> list.len() > 0,
        greatest(list) is Some ==> list.contains(greatest(list)->0) && forall|i: int|
            0 <= i < list.len() ==> greatest(list)->0.min_vram_mb >= (
            #[trigger] list[i]).min_vram_mb,
    decreases list.len(),
{
    if list.len() > 0 {
        let head = list.drop_last();
        lemma_greatest(head);
        assert(list[list.len() - 1] == list.last());
        if head.len() > 0 {
            let i = choose|i: int| 0 <= i < head.len() && head[i] == greatest(head)->0;
            assert(list[i] == head[i]);
        }
        assert forall|i: int| 0 <= i < list.len() implies greatest(list)->0.min_vram_mb >= (
        #[trigger] list[i]).min_vram_mb by {
            if i < head.len() {
                assert(head[i] == list[i]);
            }
        }
    }
}

/// The largest fitting model is one of the catalogue, fits, may be chosen without being asked for,
/// and no such model is larger; where there is none, no such model fits.
pub proof fn law_largest_fit(vram: u32, webgpu_only: bool)
    ensures
        match largest_fit(vram, webgpu_only) {
            Some(m) => {
                &&& catalogue().contains(m)
                &&& eligible(m, true, webgpu_only)
                &&& m.min_vram_mb <= vram
                &&& forall|k: int|
                    0 <= k < catalogue().len() && eligible(
                        #[trigger] catalogue()[k],
                        true,
                        webgpu_only,
                    ) && catalogue()[k].min_vram_mb <= vram ==> catalogue()[k].min_vram_mb
                        <= m.min_vram_mb
            },
            None => forall|k: int|
                0 <= k < catalogue().len() && eligible(#[trigger] catalogue()[k], true, webgpu_only)
                    ==> catalogue()[k].min_vram_mb > vram,
        },
{
    let all = choices(catalogue(), true, webgpu_only, vram);
    lemma_greatest(all);
    if all.len() > 0 {
        lemma_choices_within(catalogue(), true, webgpu_only, vram, greatest(all)->0);
    }
    assert forall|k: int|
        0 <= k < catalogue().len() && eligible(#[trigger] catalogue()[k], true, webgpu_only)
            && catalogue()[k].min_vram_mb <= vram implies largest_fit(vram, webgpu_only) is Some
        && catalogue()[k].min_vram_mb <= largest_fit(vram, webgpu_only)->0.min_vram_mb by {
        lemma_choices_hold(catalogue(), true, webgpu_only, vram, k);
        let i = choose|i: int| 0 <= i < all.len() && all[i] == catalogue()[k];
        assert(all[i].min_vram_mb <= greatest(all)->0.min_vram_mb);
    }
}

/// The fallbacks are models of the catalogue, and the smallest of those that may be chosen without
/// being asked for is no larger than any of them.
pub proof fn law_fallbacks(webgpu_only: bool)
    ensures
        catalogue().contains(smallest(webgpu_only)),
        catalogue().contains(smallest_auto()),
        catalogue().contains(default_auto()),
        smallest_auto().auto,
        forall|k: int|
            0 <= k < catalogue().len() && (#[trigger] catalogue()[k]).auto
                ==> smallest_auto().min_vram_mb <= catalogue()[k].min_vram_mb,
{
    let list = catalogue();
    let auto = choices(list, true, false, u32::MAX);
    assert(list[0].auto);
    lemma_choices_hold(list, true, false, u32::MAX, 0);
    lemma_least(auto);
    lemma_choices_within(list, true, false, u32::MAX, least(auto)->0);
    assert forall|k: int| 0 <= k < list.len() && (#[trigger] list[k]).auto implies smallest_auto(
    ).min_vram_mb <= list[k].min_vram_mb by {
        lemma_choices_hold(list, true, false, u32::MAX, k);
        let i = choose|i: int| 0 <= i < auto.len() && auto[i] == list[k];
        assert(auto[i].min_vram_mb >= least(auto)->0.min_vram_mb);
    }
    let any = choices(list, false, webgpu_only, u32::MAX);
    lemma_least(any);
    if any.len() > 0 {
        lemma_choices_within(list, false, webgpu_only, u32::MAX, least(any)->0);
    }
    lemma_marked_within(list);
}

/// The smallest model needs no more memory than any other that runs where it is to run.
pub proof fn law_smallest(webgpu_only: bool)
    ensures
        forall|k: int|
            0 <= k < catalogue().len() && (webgpu_only ==> (
            #[trigger] catalogue()[k]).webgpu_id.len() > 0) ==> smallest(webgpu_only).min_vram_mb
                <= catalogue()[k].min_vram_mb,
        forall|k: int|
            0 <= k < catalogue().len() && (#[trigger] catalogue()[k]).default
                ==> default_auto().default,
{
    let list = catalogue();
    let any = choices(list, false, webgpu_only, u32::MAX);
    lemma_least(any);
    assert forall|k: int|
        0 <= k < list.len() && (webgpu_only ==> (
        #[trigger] list[k]).webgpu_id.len() > 0) implies smallest(webgpu_only).min_vram_mb
        <= list[k].min_vram_mb by {
        lemma_choices_hold(list, false, webgpu_only, u32::MAX, k);
        let i = choose|i: int| 0 <= i < any.len() && any[i] == list[k];
        assert(any[i].min_vram_mb >= least(any)->0.min_vram_mb);
    }
    lemma_marked_within(list);
    assert forall|k: int| 0 <= k < list.len() && (
    #[trigger] list[k]).default implies default_auto().default by {
        lemma_marked_found(list, k);
    }
}

proof fn lemma_marked_found(list: Seq<OfflineModelView>, k: int)
    requires
        0 <= k < list.len(),
        list[k].default,
    ensures
        marked(list) is Some,
    decreases list.len(),
{
    if k < list.len() - 1 {
        lemma_marked_found(list.drop_last(), k);
        assert(list.drop_last()[k] == list[k]);
    }
}

proof fn lemma_marked_within(list: Seq<OfflineModelView>)
    ensures
        marked(list) is Some ==> list.contains(marked(list)->0) && marked(list)->0.default,
    decreases list.len(),
{
    if list.len() > 0 {
        let head = list.drop_last();
        lemma_marked_within(head);
        if marked(head) is Some {
            let i = choose|i: int| 0 <= i < head.len() && head[i] == marked(head)->0;
            assert(list[i] == head[i]);
        } else {
            assert(list[list.len() - 1] == list.last());
        }
    }
}

} // verus!
