//! Configuration: the model registry, per-model runtime profiles, the
//! temperature range and the directories the client writes to.
//!
//! Temperatures are held in thousandths.
use vstd::prelude::*;
use vstd::string::*;
use crate::order::{lemma_lex_irreflexive, lemma_lex_total, lemma_lex_transitive, lex_lt, text_less};
use crate::text::{is_infix, same_text, contains_text, texts};

verus! {

/// A model's name and where its weights are.
pub struct ModelEntry {
    pub name: String,
    pub path: String,
}

/// Model names mapped to weight-file locators, kept sorted by name with no
/// name twice, so that a model's place in the list is its index in the
/// lexicographic order of the names.
pub struct ModelRegistry {
    pub entries: Vec<ModelEntry>,
}

/// Names strictly increase along the entries.
pub open spec fn strictly_sorted(es: Seq<ModelEntry>) -> bool {
    forall|i: int, j: int| 0 <= i < j < es.len() ==> lex_lt(#[trigger] es[i].name@, #[trigger] es[j].name@)
}

/// The locator registered under `name`.
pub open spec fn registry_lookup(es: Seq<ModelEntry>, name: Seq<char>) -> Option<Seq<char>>
    decreases es.len(),
{
    if es.len() == 0 {
        None
    } else if es[0].name@ == name {
        Some(es[0].path@)
    } else {
        registry_lookup(es.drop_first(), name)
    }
}

proof fn lemma_lookup_none(es: Seq<ModelEntry>, name: Seq<char>)
    requires
        forall|i: int| 0 <= i < es.len() ==> #[trigger] es[i].name@ != name,
    ensures
        registry_lookup(es, name) is None,
    decreases es.len(),
{
    if es.len() > 0 {
        assert(es[0].name@ != name);
        assert forall|i: int| 0 <= i < es.len() - 1 implies #[trigger] es.drop_first()[i].name@ != name by {
            assert(es.drop_first()[i] == es[i + 1]);
        }
        lemma_lookup_none(es.drop_first(), name);
    }
}

/// The names of the entries, in order.
pub open spec fn entry_names(es: Seq<ModelEntry>) -> Seq<Seq<char>> {
    es.map_values(|e: ModelEntry| e.name@)
}

proof fn lemma_sorted_unique(es: Seq<ModelEntry>, i: int, j: int)
    requires
        strictly_sorted(es),
        0 <= i < es.len(),
        0 <= j < es.len(),
        es[i].name@ == es[j].name@,
    ensures
        i == j,
{
    if i < j {
        assert(lex_lt(es[i].name@, es[j].name@));
        lemma_lex_irreflexive(es[i].name@);
    } else if j < i {
        assert(lex_lt(es[j].name@, es[i].name@));
        lemma_lex_irreflexive(es[i].name@);
    }
}

proof fn lemma_lookup_at(es: Seq<ModelEntry>, i: int)
    requires
        strictly_sorted(es),
        0 <= i < es.len(),
    ensures
        registry_lookup(es, es[i].name@) == Some(es[i].path@),
    decreases i,
{
    if i > 0 {
        assert(lex_lt(es[0].name@, es[i].name@));
        lemma_lex_irreflexive(es[i].name@);
        let t = es.drop_first();
        assert forall|a: int, b: int| 0 <= a < b < t.len() implies lex_lt(#[trigger] t[a].name@, #[trigger] t[b].name@) by {
            assert(t[a] == es[a + 1] && t[b] == es[b + 1]);
        }
        assert(t[i - 1] == es[i]);
        lemma_lookup_at(t, i - 1);
    }
}

impl ModelRegistry {
    pub open spec fn wf(&self) -> bool {
        strictly_sorted(self.entries@)
    }

    /// The locator registered under `name`.
    pub open spec fn lookup(&self, name: Seq<char>) -> Option<Seq<char>> {
        registry_lookup(self.entries@, name)
    }

    /// An empty registry.
    pub fn new() -> (r: ModelRegistry)
        ensures
            r.wf(),
            r.entries@.len() == 0,
    {
        ModelRegistry { entries: Vec::new() }
    }

    /// An identical copy.
    pub fn duplicate(&self) -> (r: ModelRegistry)
        ensures
            r.entries@ == self.entries@,
    {
        let mut entries: Vec<ModelEntry> = Vec::new();
        let mut i: usize = 0;
        while i < self.entries.len()
            invariant
                i <= self.entries@.len(),
                entries@ == self.entries@.subrange(0, i as int),
            decreases self.entries@.len() - i,
        {
            entries.push(ModelEntry { name: self.entries[i].name.clone(), path: self.entries[i].path.clone() });
            assert(self.entries@.subrange(0, i + 1) =~= self.entries@.subrange(0, i as int).push(self.entries@[i as int]));
            i += 1;
        }
        assert(self.entries@.subrange(0, self.entries@.len() as int) =~= self.entries@);
        ModelRegistry { entries }
    }

    /// How many models are registered.
    pub fn len(&self) -> (r: usize)
        ensures
            r == self.entries@.len(),
    {
        self.entries.len()
    }

    /// Registers `path` under `name`, replacing what was registered under it.
    pub fn insert(&mut self, name: String, path: String)
        requires
            old(self).wf(),
        ensures
            final(self).wf(),
            final(self).lookup(name@) == Some(path@),
            forall|k: Seq<char>| k != name@ ==> #[trigger] final(self).lookup(k) == old(self).lookup(k),
    {
        let mut p: usize = 0;
        while p < self.entries.len() && text_less(self.entries[p].name.as_str(), name.as_str())
            invariant
                p <= self.entries@.len(),
                forall|j: int| 0 <= j < p ==> lex_lt(#[trigger] self.entries@[j].name@, name@),
            decreases self.entries@.len() - p,
        {
            p += 1;
        }
        let ghost before = self.entries@;
        let replace = p < self.entries.len() && same_text(self.entries[p].name.as_str(), name.as_str());
        if replace {
            self.entries.remove(p);
        }
        let ghost mid = self.entries@;
        self.entries.insert(p, ModelEntry { name, path });
        proof {
            let es = self.entries@;
            // Entries from p on in `mid` come strictly after the new name.
            assert forall|j: int| p <= j < mid.len() implies lex_lt(name@, #[trigger] mid[j].name@) by {
                let j0 = if replace { j + 1 } else { j };
                assert(mid[j] == before[j0]);
                lemma_lex_total(before[p as int].name@, name@);
                if replace {
                    assert(lex_lt(before[p as int].name@, before[j0].name@));
                    lemma_lex_total(name@, before[j0].name@);
                } else {
                    if j0 > p {
                        assert(lex_lt(before[p as int].name@, before[j0].name@));
                        lemma_lex_transitive(name@, before[p as int].name@, before[j0].name@);
                    }
                }
            }
            assert forall|j: int| 0 <= j < p implies lex_lt(#[trigger] mid[j].name@, name@) by {
                assert(mid[j] == before[j]);
            }
            assert forall|a: int, b: int| 0 <= a < b < es.len() implies lex_lt(#[trigger] es[a].name@, #[trigger] es[b].name@) by {
                if a < p && b > p {
                    lemma_lex_transitive(mid[a].name@, name@, mid[b - 1].name@);
                } else if a < p && b < p {
                    assert(before[a] == mid[a] && before[b] == mid[b]);
                } else if a > p {
                    let a0 = if replace { a } else { a - 1 };
                    let b0 = if replace { b } else { b - 1 };
                    assert(es[a] == before[if replace { a } else { a - 1 }]);
                    assert(es[b] == before[if replace { b } else { b - 1 }]);
                    assert(lex_lt(before[a0].name@, before[b0].name@));
                }
            }
            lemma_lookup_at(es, p as int);
            assert forall|k: Seq<char>| k != name@ implies #[trigger] registry_lookup(es, k) == registry_lookup(before, k) by {
                if exists|i: int| 0 <= i < before.len() && #[trigger] before[i].name@ == k {
                    let i = choose|i: int| 0 <= i < before.len() && #[trigger] before[i].name@ == k;
                    lemma_lookup_at(before, i);
                    let i2 = if i < p { i } else if replace { i } else { i + 1 };
                    if replace && i == p {
                        assert(false);
                    }
                    assert(es[i2] == before[i]);
                    lemma_lookup_at(es, i2);
                } else {
                    lemma_lookup_none(before, k);
                    assert forall|i: int| 0 <= i < es.len() implies #[trigger] es[i].name@ != k by {
                        if i != p {
                            let i0 = if i < p { i } else if replace { i } else { i - 1 };
                            assert(before[i0] == es[i]);
                        }
                    }
                    lemma_lookup_none(es, k);
                }
            }
        }
    }

    /// The locator registered under `name`, if any.
    pub fn get(&self, name: &str) -> (r: Option<&String>)
        requires
            self.wf(),
        ensures
            r matches Some(p) ==> self.lookup(name@) == Some(p@),
            r is None ==> self.lookup(name@) is None,
    {
        let mut i: usize = 0;
        while i < self.entries.len()
            invariant
                self.wf(),
                i <= self.entries@.len(),
                forall|j: int| 0 <= j < i ==> #[trigger] self.entries@[j].name@ != name@,
            decreases self.entries@.len() - i,
        {
            if same_text(self.entries[i].name.as_str(), name) {
                proof {
                    lemma_lookup_at(self.entries@, i as int);
                }
                return Some(&self.entries[i].path);
            }
            i += 1;
        }
        proof {
            lemma_lookup_none(self.entries@, name@);
        }
        None
    }

    /// The name of the first entry, in name order, whose locator contains
    /// `fragment`.
    pub fn name_with_path_containing(&self, fragment: &str) -> (r: Option<&String>)
        ensures
            r matches Some(n) ==> exists|i: int|
                0 <= i < self.entries@.len() && #[trigger] self.entries@[i].name == *n
                    && is_infix(fragment@, self.entries@[i].path@)
                    && forall|j: int| 0 <= j < i ==> !is_infix(fragment@, #[trigger] self.entries@[j].path@),
            r is None ==> forall|j: int| 0 <= j < self.entries@.len() ==> !is_infix(fragment@, #[trigger] self.entries@[j].path@),
    {
        let mut i: usize = 0;
        while i < self.entries.len()
            invariant
                i <= self.entries@.len(),
                forall|j: int| 0 <= j < i ==> !is_infix(fragment@, #[trigger] self.entries@[j].path@),
            decreases self.entries@.len() - i,
        {
            if contains_text(self.entries[i].path.as_str(), fragment) {
                return Some(&self.entries[i].name);
            }
            i += 1;
        }
        None
    }

    /// The registered names in lexicographic order; a model's number in lists
    /// is its position here plus one.
    pub fn names(&self) -> (r: Vec<String>)
        ensures
            texts(r@) == entry_names(self.entries@),
    {
        let mut out: Vec<String> = Vec::new();
        let mut i: usize = 0;
        while i < self.entries.len()
            invariant
                i <= self.entries@.len(),
                texts(out@) == entry_names(self.entries@.subrange(0, i as int)),
            decreases self.entries@.len() - i,
        {
            out.push(self.entries[i].name.clone());
            assert(entry_names(self.entries@.subrange(0, i + 1)) =~= entry_names(self.entries@.subrange(0, i as int)).push(self.entries@[i as int].name@));
            assert(texts(out@) =~= texts(out@.drop_last()).push(out@.last()@));
            i += 1;
        }
        assert(self.entries@.subrange(0, self.entries@.len() as int) =~= self.entries@);
        out
    }
}

/// Runtime parameters for one model on the inference server.
pub struct ModelParams {
    pub batch_size: u32,
    pub ubatch_size: u32,
    pub gpu_layers: i32,
    pub context_window: u32,
    /// Projection file of a multimodal model.
    pub mmproj: Option<String>,
}

impl ModelParams {
    /// An identical copy.
    pub fn duplicate(&self) -> (r: ModelParams)
        ensures
            r == *self,
    {
        ModelParams {
            batch_size: self.batch_size,
            ubatch_size: self.ubatch_size,
            gpu_layers: self.gpu_layers,
            context_window: self.context_window,
            mmproj: match &self.mmproj {
                Some(m) => Some(m.clone()),
                None => None,
            },
        }
    }

    /// The parameters used for a model without a profile.
    pub fn fallback() -> (r: ModelParams)
        ensures
            r == fallback_params(),
    {
        ModelParams { batch_size: 512, ubatch_size: 256, gpu_layers: 35, context_window: 8192, mmproj: None }
    }
}

/// The parameters used for a model without a profile.
pub open spec fn fallback_params() -> ModelParams {
    ModelParams { batch_size: 512, ubatch_size: 256, gpu_layers: 35, context_window: 8192, mmproj: None }
}

/// A named parameter profile.
pub struct ModelProfile {
    pub name: String,
    pub params: ModelParams,
}

/// The built-in parameter profiles.
pub struct ModelProfiles {
    pub profiles: Vec<ModelProfile>,
}

/// The parameters of the first profile named `name`.
pub open spec fn find_profile(ps: Seq<ModelProfile>, name: Seq<char>) -> Option<ModelParams>
    decreases ps.len(),
{
    if ps.len() == 0 {
        None
    } else if ps[0].name@ == name {
        Some(ps[0].params)
    } else {
        find_profile(ps.drop_first(), name)
    }
}

fn profile(name: &str, batch: u32, ubatch: u32, layers: i32, ctx: u32, mmproj: Option<&str>) -> (r: ModelProfile)
    ensures
        r.name@ == name@,
        r.params.batch_size == batch,
        r.params.ubatch_size == ubatch,
        r.params.gpu_layers == layers,
        r.params.context_window == ctx,
        r.params.mmproj is Some <==> mmproj is Some,
        mmproj matches Some(m) ==> r.params.mmproj.unwrap()@ == m@,
{
    ModelProfile {
        name: String::from_str(name),
        params: ModelParams {
            batch_size: batch,
            ubatch_size: ubatch,
            gpu_layers: layers,
            context_window: ctx,
            mmproj: match mmproj {
                Some(m) => Some(String::from_str(m)),
                None => None,
            },
        },
    }
}

/// Profile `p` has this name and these parameters.
pub open spec fn profile_is(
    p: ModelProfile,
    name: Seq<char>,
    batch: u32,
    ubatch: u32,
    layers: i32,
    ctx: u32,
    mmproj: Option<Seq<char>>,
) -> bool {
    &&& p.name@ == name
    &&& p.params.batch_size == batch
    &&& p.params.ubatch_size == ubatch
    &&& p.params.gpu_layers == layers
    &&& p.params.context_window == ctx
    &&& match mmproj {
        Some(m) => p.params.mmproj matches Some(x) && x@ == m,
        None => p.params.mmproj is None,
    }
}

impl ModelProfiles {
    /// The profiles tuned for the models the client ships with.
    pub fn default_profiles() -> (r: Vec<ModelProfile>)
        ensures
            r@.len() == 4,
            profile_is(r@[0], "qwen3-vl"@, 512, 256, 35, 8192, Some("models/mmproj-Qwen3VL-8B-Instruct-F16.gguf"@)),
            profile_is(r@[1], "gemma"@, 1024, 512, 45, 8192, None),
            profile_is(r@[2], "lfm"@, 1024, 512, 99, 4096, None),
            profile_is(r@[3], "qwen3-128k"@, 256, 128, 60, 32768, None),
    {
        let mut v: Vec<ModelProfile> = Vec::new();
        v.push(profile("qwen3-vl", 512, 256, 35, 8192, Some("models/mmproj-Qwen3VL-8B-Instruct-F16.gguf")));
        v.push(profile("gemma", 1024, 512, 45, 8192, None));
        v.push(profile("lfm", 1024, 512, 99, 4096, None));
        v.push(profile("qwen3-128k", 256, 128, 60, 32768, None));
        v
    }
}

pub struct LlmConfig {
    pub api_url: String,
    pub model_name: String,
    /// Thousandths.
    pub base_temp: u32,
    /// Thousandths.
    pub max_temp: u32,
    pub context_window: u32,
}

pub struct ModelsConfig {
    /// Locator used when a model name is not registered.
    pub default: String,
    pub registry: ModelRegistry,
}

pub struct UserConfig {
    pub name: String,
}

pub struct DirectoriesConfig {
    pub output: String,
    pub tmp_md: String,
    pub chat: String,
    pub prompts: String,
    pub sessions: String,
    pub static_prompts: String,
    pub saved_responses: String,
}

pub struct CleanupConfig {
    pub tmp_age_days: u32,
}

pub struct UiConfig {
    pub color_orange: String,
    pub color_red: String,
    pub color_dark_orange: String,
    pub color_bright_red: String,
    pub color_white: String,
    pub color_reset: String,
}

/// The accepted temperature range, in thousandths.
pub struct TemperatureConfig {
    pub default: u32,
    pub min: u32,
    pub max: u32,
    pub allow_override: bool,
}

pub struct SessionConfig {
    pub auto_save: bool,
    pub format: String,
}

/// Everything the client is configured with.
pub struct RuboxConfig {
    pub llm: LlmConfig,
    pub models: ModelsConfig,
    pub user: UserConfig,
    pub directories: DirectoriesConfig,
    pub cleanup: CleanupConfig,
    pub ui: UiConfig,
    pub temperature: TemperatureConfig,
    pub session: SessionConfig,
    pub model_profiles: Vec<ModelProfile>,
}

fn text(s: &str) -> (r: String)
    ensures
        r@ == s@,
{
    String::from_str(s)
}

impl RuboxConfig {
    /// The configuration's well-formedness: a sorted registry.
    pub open spec fn wf(&self) -> bool {
        self.models.registry.wf()
    }

    /// The parameters of the profile named `model_name`, or the fallback
    /// parameters when there is none.
    pub fn get_model_params(&self, model_name: &str) -> (r: ModelParams)
        ensures
            r == match find_profile(self.model_profiles@, model_name@) {
                Some(p) => p,
                None => fallback_params(),
            },
    {
        let ps = &self.model_profiles;
        let mut i: usize = 0;
        assert(ps@.subrange(0, ps@.len() as int) =~= ps@);
        while i < ps.len()
            invariant
                ps@ == self.model_profiles@,
                i <= ps@.len(),
                find_profile(ps@, model_name@) == find_profile(ps@.subrange(i as int, ps@.len() as int), model_name@),
            decreases ps@.len() - i,
        {
            assert(ps@.subrange(i as int, ps@.len() as int).drop_first() =~= ps@.subrange(i + 1, ps@.len() as int));
            assert(ps@.subrange(i as int, ps@.len() as int)[0] == ps@[i as int]);
            if same_text(ps[i].name.as_str(), model_name) {
                let ghost rest = ps@.subrange(i as int, ps@.len() as int);
                assert(rest.len() > 0 && rest[0].name@ == model_name@);
                assert(find_profile(rest, model_name@) == Some(rest[0].params));
                return ps[i].params.duplicate();
            }
            i += 1;
        }
        ModelParams::fallback()
    }

    /// The configuration used when no configuration file can be read.
    pub fn default_internal() -> (r: RuboxConfig)
        ensures
            r.wf(),
            r.models.registry.lookup("qwen3-vl"@) == Some("models/Qwen3-VL-8B-Instruct-UD-Q6_K_XL.gguf"@),
            r.models.registry.lookup("gemma"@) == Some("models/google_gemma-3-4b-it-Q8_0.gguf"@),
            r.models.registry.lookup("lfm"@) == Some("models/LFM2.5-1.2B-Instruct-BF16.gguf"@),
            r.models.registry.lookup("qwen3-128k"@) == Some("models/Qwen3-128k-30B-NEO-MAX-PLUS-IQ2_M.gguf"@),
            r.models.default@ == "models/Qwen3-VL-8B-Instruct-UD-Q6_K_XL.gguf"@,
            r.llm.api_url@ == "http://127.0.0.1:8081/v1"@,
            r.llm.model_name@ == "qwen3-vl"@,
            r.llm.base_temp == 700 && r.llm.max_temp == 900 && r.llm.context_window == 8192,
            r.temperature.default == 700 && r.temperature.min == 0 && r.temperature.max == 2000,
            r.temperature.allow_override,
            r.session.auto_save,
            r.directories.sessions@ == "Chat/sessions"@,
            r.directories.saved_responses@ == "Chat/saved"@,
            r.directories.static_prompts@ == "prompts/static"@,
            r.cleanup.tmp_age_days == 3,
            r.model_profiles@.len() == 4,
    {
        proof {
            reveal_strlit("qwen3-vl");
            reveal_strlit("gemma");
            reveal_strlit("lfm");
            reveal_strlit("qwen3-128k");
        }
        let mut registry = ModelRegistry::new();
        registry.insert(text("qwen3-vl"), text("models/Qwen3-VL-8B-Instruct-UD-Q6_K_XL.gguf"));
        let ghost first = "models/Qwen3-VL-8B-Instruct-UD-Q6_K_XL.gguf"@;
        assert("qwen3-vl"@.len() == 8 && "gemma"@.len() == 5 && "lfm"@.len() == 3);
        assert("qwen3-vl"@ != "gemma"@ && "qwen3-vl"@ != "lfm"@);
        assert(registry.lookup("qwen3-vl"@) == Some(first));
        registry.insert(text("gemma"), text("models/google_gemma-3-4b-it-Q8_0.gguf"));
        assert(registry.lookup("qwen3-vl"@) == Some(first));
        registry.insert(text("lfm"), text("models/LFM2.5-1.2B-Instruct-BF16.gguf"));
        assert(registry.lookup("qwen3-vl"@) == Some(first));
        registry.insert(text("qwen3-128k"), text("models/Qwen3-128k-30B-NEO-MAX-PLUS-IQ2_M.gguf"));
        RuboxConfig {
            llm: LlmConfig {
                api_url: text("http://127.0.0.1:8081/v1"),
                model_name: text("qwen3-vl"),
                base_temp: 700,
                max_temp: 900,
                context_window: 8192,
            },
            models: ModelsConfig { default: text("models/Qwen3-VL-8B-Instruct-UD-Q6_K_XL.gguf"), registry },
            user: UserConfig { name: text("Arto") },
            directories: DirectoriesConfig {
                output: text("output"),
                tmp_md: text("tmp_md"),
                chat: text("Chat"),
                prompts: text("output/_prompts"),
                sessions: text("Chat/sessions"),
                static_prompts: text("prompts/static"),
                saved_responses: text("Chat/saved"),
            },
            cleanup: CleanupConfig { tmp_age_days: 3 },
            ui: UiConfig {
                color_orange: text("\x1b[38;5;208m"),
                color_red: text("\x1b[38;5;196m"),
                color_dark_orange: text("\x1b[38;5;166m"),
                color_bright_red: text("\x1b[38;5;9m"),
                color_white: text("\x1b[37m"),
                color_reset: text("\x1b[0m"),
            },
            temperature: TemperatureConfig { default: 700, min: 0, max: 2000, allow_override: true },
            session: SessionConfig { auto_save: true, format: text("json") },
            model_profiles: ModelProfiles::default_profiles(),
        }
    }
}

} // verus!
