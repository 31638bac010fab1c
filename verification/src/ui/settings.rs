//! The settings dialog: its tabs, the provider form and the session list
//! paging.

use vstd::prelude::*;

use crate::storage::llm_provider_config::{LlmModelConfig, LlmProviderConfig};
use crate::text::{
    is_ws, lemma_trim_fixed, push_str_chars, str_chars, string_from_chars, trim_chars, trim_seq,
    trim_str,
};

verus! {

/// The sections of the settings dialog.
#[derive(Debug, Clone, Copy, PartialEq, Eq, Structural)]
pub enum SettingsTab {
    General,
    Agent,
    Tools,
    Storage,
}

impl SettingsTab {
    /// The tab's title.
    pub fn title(self) -> (r: &'static str)
        ensures
            r@ == match self {
                SettingsTab::General => "General"@,
                SettingsTab::Agent => "Agent"@,
                SettingsTab::Tools => "Tools"@,
                SettingsTab::Storage => "Storage"@,
            },
    {
        match self {
            SettingsTab::General => "General",
            SettingsTab::Agent => "Agent",
            SettingsTab::Tools => "Tools",
            SettingsTab::Storage => "Storage",
        }
    }

    /// The line under the tab's title.
    pub fn subtitle(self) -> (r: &'static str)
        ensures
            r@ == match self {
                SettingsTab::General => "Application defaults and desktop behavior."@,
                SettingsTab::Agent => "Active compile-time preset and model parameters."@,
                SettingsTab::Tools => "Tool runtime and schema capabilities."@,
                SettingsTab::Storage => "Local persistence and session data."@,
            },
    {
        match self {
            SettingsTab::General => "Application defaults and desktop behavior.",
            SettingsTab::Agent => "Active compile-time preset and model parameters.",
            SettingsTab::Tools => "Tool runtime and schema capabilities.",
            SettingsTab::Storage => "Local persistence and session data.",
        }
    }
}

/// How many recent sessions the sidebar shows at first.
pub const INITIAL_RECENT_SESSION_COUNT: usize = 5;

/// How many more sessions each "load more" shows.
pub const RECENT_SESSION_PAGE_SIZE: usize = 5;

/// The number of sessions to show after the list changed: all of them when
/// there are at most five, else the current count held between five and
/// the total.
pub open spec fn normalized_count(current: usize, total: usize) -> usize {
    if total <= INITIAL_RECENT_SESSION_COUNT {
        total
    } else if current < INITIAL_RECENT_SESSION_COUNT {
        INITIAL_RECENT_SESSION_COUNT
    } else if current > total {
        total
    } else {
        current
    }
}

/// The number of sessions shown after the session list changed.
pub fn normalized_visible_session_count(current: usize, total: usize) -> (r: usize)
    ensures
        r == normalized_count(current, total),
{
    if total <= INITIAL_RECENT_SESSION_COUNT {
        total
    } else if current < INITIAL_RECENT_SESSION_COUNT {
        INITIAL_RECENT_SESSION_COUNT
    } else if current > total {
        total
    } else {
        current
    }
}

/// The sidebar never shows more sessions than there are, and shows at least
/// five whenever there are that many.
pub proof fn visible_count_bounds(current: usize, total: usize)
    ensures
        normalized_count(current, total) <= total,
        total >= INITIAL_RECENT_SESSION_COUNT ==> normalized_count(current, total)
            >= INITIAL_RECENT_SESSION_COUNT,
{
}

/// The number of sessions shown after "load more".
pub fn load_more_sessions(visible: usize, total: usize) -> (r: usize)
    ensures
        r == (if visible + RECENT_SESSION_PAGE_SIZE < total {
            visible + RECENT_SESSION_PAGE_SIZE
        } else {
            total as int
        }),
{
    if visible < total && total - visible > RECENT_SESSION_PAGE_SIZE {
        visible + RECENT_SESSION_PAGE_SIZE
    } else {
        total
    }
}


/// The provider settings as the form shows them: the model ids on one line.
#[derive(Debug, Clone)]
pub struct LlmProviderForm {
    pub provider_name: String,
    pub base_url: String,
    pub api_key: String,
    pub default_model: String,
    pub models: String,
}

/// Whether `c` separates two model ids in the form: a comma or a line break.
pub open spec fn is_model_separator(c: char) -> bool {
    c == ',' || c == '\n'
}

/// The pieces of `s` between separators, as `str::split` gives them (an
/// empty text is one empty piece).
pub open spec fn split_models(s: Seq<char>) -> Seq<Seq<char>>
    decreases s.len(),
{
    if s.len() == 0 {
        seq![Seq::empty()]
    } else {
        let p = split_models(s.drop_last());
        if is_model_separator(s.last()) {
            p.push(Seq::empty())
        } else {
            p.update(p.len() - 1, p.last().push(s.last()))
        }
    }
}

/// The trimmed pieces that are not blank, in order.
pub open spec fn nonblank_trimmed(ps: Seq<Seq<char>>) -> Seq<Seq<char>>
    decreases ps.len(),
{
    if ps.len() == 0 {
        Seq::empty()
    } else {
        nonblank_trimmed(ps.drop_last()) + if trim_seq(ps.last()).len() == 0 {
            Seq::empty()
        } else {
            seq![trim_seq(ps.last())]
        }
    }
}

/// The model ids a form line lists; when it lists none, the trimmed default
/// model, unless that is blank too.
pub open spec fn model_ids_spec(models: Seq<char>, default_model: Seq<char>) -> Seq<Seq<char>> {
    let ids = nonblank_trimmed(split_models(models));
    if ids.len() == 0 && trim_seq(default_model).len() > 0 {
        seq![trim_seq(default_model)]
    } else {
        ids
    }
}

/// Each model has its id as display name, and the ids are `ids`.
pub open spec fn models_with_ids(ms: Seq<LlmModelConfig>, ids: Seq<Seq<char>>) -> bool {
    &&& ms.len() == ids.len()
    &&& forall|i: int|
        0 <= i < ms.len() ==> (#[trigger] ms[i]).id@ == ids[i] && ms[i].display_name@ == ids[i]
}

proof fn lemma_split_models_nonempty(s: Seq<char>)
    ensures
        split_models(s).len() >= 1,
    decreases s.len(),
{
    if s.len() > 0 {
        lemma_split_models_nonempty(s.drop_last());
    }
}

fn model_entry(id: &[char]) -> (r: LlmModelConfig)
    ensures
        r.id@ == id@,
        r.display_name@ == id@,
{
    LlmModelConfig { id: string_from_chars(id), display_name: string_from_chars(id) }
}

/// The models listed in the form's line, split at commas and line breaks,
/// trimmed, without blanks; the default model alone when none is listed.
pub fn parse_model_list(models: &str, default_model: &str) -> (r: Vec<LlmModelConfig>)
    ensures
        models_with_ids(r@, model_ids_spec(models@, default_model@)),
{
    let cs = str_chars(models);
    let mut out: Vec<LlmModelConfig> = Vec::new();
    let ghost mut ids: Seq<Seq<char>> = Seq::empty();
    let mut cur: Vec<char> = Vec::new();
    let mut i: usize = 0;
    proof {
        assert(cs@.take(0) =~= Seq::<char>::empty());
    }
    while i < cs.len()
        invariant
            i <= cs@.len(),
            split_models(cs@.take(i as int)).len() >= 1,
            cur@ == split_models(cs@.take(i as int)).last(),
            ids == nonblank_trimmed(split_models(cs@.take(i as int)).drop_last()),
            models_with_ids(out@, ids),
        decreases cs@.len() - i,
    {
        let c = cs[i];
        let ghost pre = cs@.take(i as int);
        let ghost next = cs@.take(i + 1);
        assert(next.drop_last() =~= pre);
        proof {
            lemma_split_models_nonempty(pre);
        }
        if c == ',' || c == '\n' {
            let t = trim_chars(cur.as_slice());
            let ghost p = split_models(pre);
            assert(split_models(next) == p.push(Seq::empty()));
            assert(split_models(next).drop_last() =~= p);
            assert(p.drop_last().push(p.last()) =~= p);
            if t.len() > 0 {
                out.push(model_entry(t.as_slice()));
                proof {
                    ids = ids.push(t@);
                }
            }
            assert(nonblank_trimmed(p) == nonblank_trimmed(p.drop_last()) + if trim_seq(p.last()).len() == 0 {
                Seq::empty()
            } else {
                seq![trim_seq(p.last())]
            });
            assert(ids =~= nonblank_trimmed(split_models(next).drop_last()));
            cur = Vec::new();
        } else {
            cur.push(c);
            let ghost p = split_models(pre);
            assert(split_models(next).drop_last() =~= p.drop_last());
        }
        i = i + 1;
    }
    assert(cs@.take(cs@.len() as int) =~= cs@);
    let ghost pieces = split_models(cs@);
    let t = trim_chars(cur.as_slice());
    if t.len() > 0 {
        out.push(model_entry(t.as_slice()));
        proof {
            ids = ids.push(t@);
        }
    }
    proof {
        assert(pieces.drop_last().push(pieces.last()) =~= pieces);
        assert(ids =~= nonblank_trimmed(pieces));
    }
    if out.len() == 0 {
        let d = str_chars(default_model);
        let dt = trim_chars(d.as_slice());
        if dt.len() > 0 {
            out.push(model_entry(dt.as_slice()));
        }
    }
    out
}

/// The ids of the models, in order.
pub open spec fn model_ids(ms: Seq<LlmModelConfig>) -> Seq<Seq<char>> {
    Seq::new(ms.len(), |i: int| ms[i].id@)
}

/// The ids joined by `, `.
pub open spec fn join_ids(ids: Seq<Seq<char>>) -> Seq<char>
    decreases ids.len(),
{
    if ids.len() == 0 {
        Seq::empty()
    } else if ids.len() == 1 {
        ids[0]
    } else {
        join_ids(ids.drop_last()) + ", "@ + ids.last()
    }
}

/// `c` is what the form saves: every field trimmed, the models parsed from
/// the form's line (the trimmed default model alone when it lists none).
pub open spec fn config_from_form(form: LlmProviderForm, c: LlmProviderConfig) -> bool {
    &&& c.provider_name@ == trim_seq(form.provider_name@)
    &&& c.base_url@ == trim_seq(form.base_url@)
    &&& c.api_key@ == trim_seq(form.api_key@)
    &&& c.default_model@ == trim_seq(form.default_model@)
    &&& models_with_ids(c.models@, model_ids_spec(form.models@, trim_seq(form.default_model@)))
}

impl LlmProviderForm {
    /// The form showing a configuration: the fields as they are, the model
    /// ids joined by `, `.
    pub fn from_config(config: &LlmProviderConfig) -> (r: Self)
        ensures
            r.provider_name == config.provider_name,
            r.base_url == config.base_url,
            r.api_key == config.api_key,
            r.default_model == config.default_model,
            r.models@ == join_ids(model_ids(config.models@)),
    {
        let mut line: Vec<char> = Vec::new();
        let mut i: usize = 0;
        while i < config.models.len()
            invariant
                i <= config.models@.len(),
                line@ == join_ids(model_ids(config.models@.take(i as int))),
            decreases config.models@.len() - i,
        {
            let ghost pre = model_ids(config.models@.take(i as int));
            let ghost next = model_ids(config.models@.take(i + 1));
            assert(next.drop_last() =~= pre);
            if i > 0 {
                push_str_chars(&mut line, ", ");
            }
            push_str_chars(&mut line, config.models[i].id.as_str());
            i = i + 1;
            proof {
                if i == 1 {
                    assert(line@ =~= join_ids(next));
                } else {
                    assert(line@ =~= join_ids(next));
                }
            }
        }
        assert(config.models@.take(config.models@.len() as int) =~= config.models@);
        LlmProviderForm {
            provider_name: config.provider_name.clone(),
            base_url: config.base_url.clone(),
            api_key: config.api_key.clone(),
            default_model: config.default_model.clone(),
            models: string_from_chars(line.as_slice()),
        }
    }

    /// The configuration the form saves: every field trimmed, the models
    /// parsed from the form's line.
    pub fn to_config(&self) -> (r: LlmProviderConfig)
        ensures
            config_from_form(*self, r),
    {
        let default_model = trim_str(self.default_model.as_str());
        let models = parse_model_list(self.models.as_str(), default_model.as_str());
        proof {
            crate::text::lemma_trim_idempotent(self.default_model@);
        }
        LlmProviderConfig {
            provider_name: trim_str(self.provider_name.as_str()),
            base_url: trim_str(self.base_url.as_str()),
            api_key: trim_str(self.api_key.as_str()),
            default_model,
            models,
        }
    }
}

/// How the form describes the API key: `Saved` when the form holds one,
/// `Using computer setting` when only `OPENAI_API_KEY` (given as
/// `env_api_key`) holds one, `Missing` otherwise.
pub fn llm_api_key_status(api_key: &str, env_api_key: Option<&str>) -> (r: &'static str)
    ensures
        trim_seq(api_key@).len() > 0 ==> r@ == "Saved"@,
        trim_seq(api_key@).len() == 0 && (env_api_key matches Some(e) && trim_seq(e@).len() > 0)
            ==> r@ == "Using computer setting"@,
        trim_seq(api_key@).len() == 0 && !(env_api_key matches Some(e) && trim_seq(e@).len() > 0)
            ==> r@ == "Missing"@,
{
    if !trim_str(api_key).as_str().is_empty() {
        return "Saved";
    }
    match env_api_key {
        Some(e) => if !trim_str(e).as_str().is_empty() {
            "Using computer setting"
        } else {
            "Missing"
        },
        None => "Missing",
    }
}


/// `s` contains no model separator.
pub open spec fn separator_free(s: Seq<char>) -> bool {
    forall|i: int| 0 <= i < s.len() ==> !is_model_separator(#[trigger] s[i])
}

proof fn lemma_split_append_plain(a: Seq<char>, b: Seq<char>)
    requires
        separator_free(b),
    ensures
        split_models(a + b) == split_models(a).update(
            split_models(a).len() - 1,
            split_models(a).last() + b,
        ),
    decreases b.len(),
{
    lemma_split_models_nonempty(a);
    if b.len() == 0 {
        assert(a + b =~= a);
        assert(split_models(a).last() + b =~= split_models(a).last());
        assert(split_models(a).update(split_models(a).len() - 1, split_models(a).last())
            =~= split_models(a));
    } else {
        let b0 = b.drop_last();
        assert forall|i: int| 0 <= i < b0.len() implies !is_model_separator(#[trigger] b0[i]) by {
            assert(b0[i] == b[i]);
        }
        lemma_split_append_plain(a, b0);
        assert((a + b).drop_last() =~= a + b0);
        assert((a + b).last() == b.last());
        assert(!is_model_separator(b[b.len() - 1]));
        let p = split_models(a);
        assert(split_models(a + b) =~= p.update(p.len() - 1, p.last() + b0).update(
            p.len() - 1,
            (p.last() + b0).push(b.last()),
        ));
        assert((p.last() + b0).push(b.last()) =~= p.last() + b);
        assert(split_models(a + b) =~= p.update(p.len() - 1, p.last() + b));
    }
}

/// The pieces a joined list splits into: the first id, then each further id
/// behind the space that follows its comma.
spec fn joined_pieces(ids: Seq<Seq<char>>) -> Seq<Seq<char>> {
    Seq::new(ids.len(), |i: int| if i == 0 { ids[0] } else { " "@ + ids[i] })
}

proof fn lemma_split_join(ids: Seq<Seq<char>>)
    requires
        ids.len() >= 1,
        forall|i: int| 0 <= i < ids.len() ==> separator_free(#[trigger] ids[i]),
    ensures
        split_models(join_ids(ids)) == joined_pieces(ids),
    decreases ids.len(),
{
    reveal_strlit(", ");
    reveal_strlit(" ");
    if ids.len() == 1 {
        lemma_split_append_plain(Seq::empty(), ids[0]);
        assert(Seq::<char>::empty() + ids[0] =~= ids[0]);
        assert(split_models(Seq::<char>::empty()) =~= seq![Seq::<char>::empty()]);
        assert(split_models(join_ids(ids)) =~= joined_pieces(ids));
    } else {
        let d = ids.drop_last();
        assert forall|i: int| 0 <= i < d.len() implies separator_free(#[trigger] d[i]) by {
            assert(d[i] == ids[i]);
        }
        lemma_split_join(d);
        let a = join_ids(d) + seq![','];
        assert(a.drop_last() =~= join_ids(d));
        assert(split_models(a) == split_models(join_ids(d)).push(Seq::empty()));
        let tail = " "@ + ids.last();
        assert forall|i: int| 0 <= i < tail.len() implies !is_model_separator(#[trigger] tail[i]) by {
            if i > 0 {
                assert(tail[i] == ids.last()[i - 1]);
                assert(separator_free(ids[ids.len() - 1]));
            }
        }
        lemma_split_append_plain(a, tail);
        assert(join_ids(ids) =~= a + tail);
        assert(Seq::<char>::empty() + tail =~= tail);
        assert(split_models(join_ids(ids)) =~= joined_pieces(ids));
    }
}

proof fn lemma_trim_spaced_id(id: Seq<char>)
    requires
        id.len() > 0,
        trim_seq(id) == id,
    ensures
        trim_seq(" "@ + id) == id,
{
    reveal_strlit(" ");
    crate::text::lemma_trim_shape(id);
    let s = " "@ + id;
    assert(is_ws(s[0]));
    assert(s.drop_first() =~= id);
    assert(crate::text::trim_start_seq(id) == id);
    assert(crate::text::trim_start_seq(s) == id);
    lemma_trim_fixed(id);
}

proof fn lemma_nonblank_pieces(ids: Seq<Seq<char>>)
    requires
        forall|i: int|
            0 <= i < ids.len() ==> (#[trigger] ids[i]).len() > 0 && trim_seq(ids[i]) == ids[i],
    ensures
        nonblank_trimmed(joined_pieces(ids)) == ids,
    decreases ids.len(),
{
    if ids.len() > 0 {
        let d = ids.drop_last();
        lemma_nonblank_pieces(d);
        assert(joined_pieces(ids).drop_last() =~= joined_pieces(d));
        let last = ids.len() - 1;
        assert(ids[last] == ids.last());
        if last == 0 {
            assert(joined_pieces(ids).last() == ids.last());
        } else {
            lemma_trim_spaced_id(ids.last());
        }
        assert(nonblank_trimmed(joined_pieces(ids)) =~= ids);
    }
}

/// Saving the form unchanged keeps the model ids: the line that
/// `from_config` shows parses back into the same ids, provided each id is
/// non-blank, trimmed and free of commas and line breaks.
pub proof fn model_list_round_trip(config: LlmProviderConfig, default_model: Seq<char>)
    requires
        config.models@.len() > 0,
        forall|i: int|
            0 <= i < config.models@.len() ==> {
                let id = (#[trigger] config.models@[i]).id@;
                &&& id.len() > 0
                &&& trim_seq(id) == id
                &&& separator_free(id)
            },
    ensures
        model_ids_spec(join_ids(model_ids(config.models@)), default_model) == model_ids(
            config.models@,
        ),
{
    let ids = model_ids(config.models@);
    assert forall|i: int| 0 <= i < ids.len() implies separator_free(#[trigger] ids[i]) by {
        assert(ids[i] == config.models@[i].id@);
    }
    assert forall|i: int| 0 <= i < ids.len() implies (#[trigger] ids[i]).len() > 0 && trim_seq(
        ids[i],
    ) == ids[i] by {
        assert(ids[i] == config.models@[i].id@);
    }
    lemma_split_join(ids);
    lemma_nonblank_pieces(ids);
}

} // verus!
