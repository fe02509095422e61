use vstd::prelude::*;

use crate::backend::BackendError;
use crate::glossary::{merge_analysis, terms_map, AnalysisResult, ChapterGlossary};
use crate::text::{sanitized, strip_code_fences, unescape_newlines, unescaped};

verus! {

/// minijinja's error type, carried as it came in `ChapterError::Template`.
#[verifier::external_type_specification]
#[verifier::external_body]
pub struct ExTemplateError(minijinja::Error);

/// serde_json's error type, in the result of its encoder.
#[verifier::external_type_specification]
#[verifier::external_body]
pub struct ExJsonError(serde_json::Error);

/// The views of named text values.
pub open spec fn text_pairs(s: Seq<(String, String)>) -> Seq<(Seq<char>, Seq<char>)> {
    s.map_values(|p: (String, String)| (p.0@, p.1@))
}

/// The views of named numbers.
pub open spec fn number_pairs(s: Seq<(String, usize)>) -> Seq<(Seq<char>, usize)> {
    s.map_values(|p: (String, usize)| (p.0@, p.1))
}

/// What minijinja renders from a template source and a context of named text values and
/// named numbers; nothing when the template does not compile or does not render.
pub uninterp spec fn rendered(
    source: Seq<char>,
    texts: Seq<(Seq<char>, Seq<char>)>,
    numbers: Seq<(Seq<char>, usize)>,
) -> Option<Seq<char>>;

/// Relies on minijinja's `Environment::render_str`: renders `source` once, with a context
/// that maps each name to its value; the outcome depends on these values alone.
#[verifier::external_body]
fn render_template(
    source: &str,
    texts: &Vec<(String, String)>,
    numbers: &Vec<(String, usize)>,
) -> (r: Result<String, minijinja::Error>)
    ensures
        r is Ok <==> rendered(source@, text_pairs(texts@), number_pairs(numbers@)) is Some,
        r matches Ok(s) ==> Some(s@) == rendered(
            source@,
            text_pairs(texts@),
            number_pairs(numbers@),
        ),
{
    let ctx: std::collections::BTreeMap<String, minijinja::Value> = texts.iter().map(
        |(k, v)| (k.clone(), minijinja::Value::from(v.as_str())),
    ).chain(numbers.iter().map(|(k, n)| (k.clone(), minijinja::Value::from(*n)))).collect();
    minijinja::Environment::new().render_str(source, ctx)
}

/// The JSON text serde_json writes for the object that maps each term to its rendering,
/// keys in order.
pub uninterp spec fn json_object_text(entries: Seq<(Seq<char>, Seq<char>)>) -> Seq<char>;

/// Relies on `serde_json::to_string` of the table as an ordered string map. Its documented
/// failures are a `Serialize` impl that fails and a map key that is not a string; neither
/// occurs for a map from `String` to `String` written into a `Vec`, so it always succeeds.
#[verifier::external_body]
fn encode_terms(terms: &Vec<(String, String)>) -> (r: Result<String, serde_json::Error>)
    ensures
        r is Ok,
        r matches Ok(s) ==> s@ == json_object_text(text_pairs(terms@)),
{
    let map: std::collections::BTreeMap<String, String> = terms.iter().cloned().collect();
    serde_json::to_string(&map)
}

/// What a run needs to know to prompt the model.
#[derive(Debug, Clone)]
pub struct TranslationSettings {
    pub target_language: String,
    pub max_summary_length: usize,
    pub max_dictionary_size: usize,
    /// Template of the analysis prompt.
    pub analysis_prompt: String,
    /// Template of the translation prompt.
    pub translation_prompt: String,
}

/// One call of the model backend.
#[derive(Debug, Clone)]
pub struct ModelRequest {
    pub system_prompt: String,
    pub user_content: String,
    /// Asks the backend for syntactically valid JSON.
    pub json_mode: bool,
}

/// Why a chapter could not be processed.
#[derive(Debug)]
pub enum ChapterError {
    /// A prompt template did not render.
    Template(minijinja::Error),
    /// The model call failed.
    Backend(BackendError),
    /// The analysis reply is not the expected structure; the reply is kept as it came.
    Parse { raw: String },
    /// Writing the snapshot or the translation failed.
    Storage(String),
    /// An event came that the chapter was not waiting for.
    OutOfOrder,
}

pub open spec fn analysis_texts(
    settings: TranslationSettings,
    prior: ChapterGlossary,
) -> Seq<(Seq<char>, Seq<char>)> {
    seq![
        ("target_lang"@, settings.target_language@),
        ("prev_summary"@, prior.summary@),
        ("existing_glossary"@, json_object_text(text_pairs(prior.terms@))),
    ]
}

pub open spec fn analysis_numbers(settings: TranslationSettings) -> Seq<(Seq<char>, usize)> {
    seq![("summary_len"@, settings.max_summary_length), ("glossary_limit"@, settings.max_dictionary_size)]
}

pub open spec fn translation_texts(
    settings: TranslationSettings,
    snapshot: ChapterGlossary,
) -> Seq<(Seq<char>, Seq<char>)> {
    seq![
        ("target_lang"@, settings.target_language@),
        ("summary"@, snapshot.summary@),
        ("glossary"@, json_object_text(text_pairs(snapshot.terms@))),
    ]
}

/// The analysis pass' request: the analysis prompt rendered with the target language,
/// both size budgets, the prior summary and the prior terms as JSON; the chapter text as
/// content; JSON output asked for.
pub fn analysis_request(
    settings: &TranslationSettings,
    content: &String,
    prior: &ChapterGlossary,
) -> (r: Result<ModelRequest, ChapterError>)
    ensures
        r matches Ok(q) ==> q.json_mode && q.user_content@ == content@ && Some(q.system_prompt@)
            == rendered(
            settings.analysis_prompt@,
            analysis_texts(*settings, *prior),
            analysis_numbers(*settings),
        ),
        r is Ok <==> rendered(
            settings.analysis_prompt@,
            analysis_texts(*settings, *prior),
            analysis_numbers(*settings),
        ) is Some,
        r matches Err(e) ==> e is Template,
{
    let terms_json = encode_terms(&prior.terms).unwrap();
    let texts: Vec<(String, String)> = vec![
        (String::from_str("target_lang"), settings.target_language.clone()),
        (String::from_str("prev_summary"), prior.summary.clone()),
        (String::from_str("existing_glossary"), terms_json),
    ];
    let numbers: Vec<(String, usize)> = vec![
        (String::from_str("summary_len"), settings.max_summary_length),
        (String::from_str("glossary_limit"), settings.max_dictionary_size),
    ];
    assert(text_pairs(texts@) =~= analysis_texts(*settings, *prior));
    assert(number_pairs(numbers@) =~= analysis_numbers(*settings));
    match render_template(settings.analysis_prompt.as_str(), &texts, &numbers) {
        Ok(prompt) => Ok(
            ModelRequest { system_prompt: prompt, user_content: content.clone(), json_mode: true },
        ),
        Err(e) => Err(ChapterError::Template(e)),
    }
}

/// The translation pass' request: the translation prompt rendered with the target
/// language, the chapter's own summary and its full term table as JSON; the chapter text
/// as content; free text asked for.
pub fn translation_request(
    settings: &TranslationSettings,
    content: &String,
    snapshot: &ChapterGlossary,
) -> (r: Result<ModelRequest, ChapterError>)
    ensures
        r matches Ok(q) ==> !q.json_mode && q.user_content@ == content@ && Some(q.system_prompt@)
            == rendered(
            settings.translation_prompt@,
            translation_texts(*settings, *snapshot),
            Seq::empty(),
        ),
        r is Ok <==> rendered(
            settings.translation_prompt@,
            translation_texts(*settings, *snapshot),
            Seq::empty(),
        ) is Some,
        r matches Err(e) ==> e is Template,
{
    let terms_json = encode_terms(&snapshot.terms).unwrap();
    let texts: Vec<(String, String)> = vec![
        (String::from_str("target_lang"), settings.target_language.clone()),
        (String::from_str("summary"), snapshot.summary.clone()),
        (String::from_str("glossary"), terms_json),
    ];
    let numbers: Vec<(String, usize)> = Vec::new();
    assert(text_pairs(texts@) =~= translation_texts(*settings, *snapshot));
    assert(number_pairs(numbers@) =~= Seq::<(Seq<char>, usize)>::empty());
    match render_template(settings.translation_prompt.as_str(), &texts, &numbers) {
        Ok(prompt) => Ok(
            ModelRequest { system_prompt: prompt, user_content: content.clone(), json_mode: false },
        ),
        Err(e) => Err(ChapterError::Template(e)),
    }
}

} // verus!

verus! {

/// Where a chapter stands in its two passes.
#[derive(Debug, Clone, Copy, PartialEq, Eq, Structural)]
pub enum ChapterPhase {
    /// The analysis call is out.
    AwaitAnalysis,
    /// The sanitized analysis reply is being decoded.
    AwaitDecode,
    /// The new snapshot is being saved.
    AwaitSave,
    /// The translation call is out.
    AwaitTranslation,
    /// The translation is being written.
    AwaitWrite,
    Complete,
    Failed,
}

/// What happened to the work a chapter last asked for.
#[derive(Debug)]
pub enum ChapterEvent {
    /// The model call came back.
    Reply(Result<String, BackendError>),
    /// The analysis reply was decoded, or was not the expected structure.
    Decoded(Option<AnalysisResult>),
    /// The snapshot or the translation was written, or writing it failed.
    Stored(Result<(), String>),
}

/// The work a chapter asks for next.
#[derive(Debug)]
pub enum ChapterAction {
    /// Call the model backend.
    Call(ModelRequest),
    /// Decode this text as an analysis reply with a `summary` and a `new_glossary`.
    Decode(String),
    /// Save this snapshot under its chapter name, replacing any earlier one.
    SaveGlossary(ChapterGlossary),
    /// Write the translation under the chapter's file name.
    WriteOutput { file_name: String, text: String },
    /// The chapter is done; this snapshot seeds the next chapter.
    Finish(ChapterGlossary),
    /// The chapter failed; what is already saved stays as it is.
    Abort(ChapterError),
}

/// One chapter's run through the analysis and translation passes.
#[derive(Debug)]
pub struct ChapterRun {
    pub phase: ChapterPhase,
    pub settings: TranslationSettings,
    /// The stem of the chapter's file name.
    pub chapter_name: String,
    /// The chapter's file name, under which its translation is written.
    pub file_name: String,
    pub content: String,
    /// The snapshot of the chapter before, or an empty one.
    pub prior: ChapterGlossary,
    /// The analysis reply as it came.
    pub raw_analysis: String,
    /// This chapter's snapshot, once the analysis is merged.
    pub snapshot: ChapterGlossary,
    /// Whether the snapshot has been saved.
    pub saved: bool,
}

impl ChapterRun {
    pub open spec fn wf(&self) -> bool {
        &&& self.prior.wf()
        &&& self.snapshot.wf()
        &&& (self.phase == ChapterPhase::AwaitTranslation || self.phase
            == ChapterPhase::AwaitWrite || self.phase == ChapterPhase::Complete) ==> self.saved
    }

    /// Whether everything but the phase, the reply, the snapshot and the saved flag is
    /// as in `o`.
    pub open spec fn same_job(&self, o: ChapterRun) -> bool {
        &&& self.settings == o.settings
        &&& self.chapter_name == o.chapter_name
        &&& self.file_name == o.file_name
        &&& self.content == o.content
        &&& self.prior == o.prior
    }

    /// Starts a chapter from the snapshot of the chapter before: the first work asked for
    /// is the analysis call.
    pub fn start(
        settings: TranslationSettings,
        chapter_name: String,
        file_name: String,
        content: String,
        prior: ChapterGlossary,
    ) -> (r: (ChapterRun, ChapterAction))
        requires
            prior.wf(),
        ensures
            r.0.wf(),
            !r.0.saved,
            r.0.settings == settings,
            r.0.chapter_name == chapter_name,
            r.0.file_name == file_name,
            r.0.content == content,
            r.0.prior == prior,
            r.1 matches ChapterAction::Call(q) ==> (r.0.phase == ChapterPhase::AwaitAnalysis
                && q.json_mode && q.user_content@ == content@ && Some(q.system_prompt@)
                == rendered(
                settings.analysis_prompt@,
                analysis_texts(settings, prior),
                analysis_numbers(settings),
            )),
            r.1 matches ChapterAction::Abort(e) ==> (r.0.phase == ChapterPhase::Failed
                && e is Template),
            r.1 is Call <==> rendered(
                settings.analysis_prompt@,
                analysis_texts(settings, prior),
                analysis_numbers(settings),
            ) is Some,
            r.1 is Call || r.1 is Abort,
    {
        let request = analysis_request(&settings, &content, &prior);
        let (phase, action) = match request {
            Ok(q) => (ChapterPhase::AwaitAnalysis, ChapterAction::Call(q)),
            Err(e) => (ChapterPhase::Failed, ChapterAction::Abort(e)),
        };
        let run = ChapterRun {
            phase,
            settings,
            chapter_name,
            file_name,
            content,
            prior,
            raw_analysis: String::new(),
            snapshot: ChapterGlossary::empty(),
            saved: false,
        };
        (run, action)
    }

    /// Takes in what happened to the last work asked for and says what to do next. The
    /// snapshot is saved before the translation call goes out, and the translation is
    /// written only after that call succeeded; any failure ends the chapter and leaves
    /// what is saved as it is.
    pub fn step(&mut self, event: ChapterEvent) -> (action: ChapterAction)
        requires
            old(self).wf(),
        ensures
            final(self).wf(),
            final(self).same_job(*old(self)),
            old(self).saved ==> final(self).saved,
            old(self).phase != ChapterPhase::AwaitSave ==> final(self).saved == old(self).saved,
            !(old(self).phase == ChapterPhase::AwaitDecode && event matches ChapterEvent::Decoded(
                Some(_),
            )) ==> final(self).snapshot == old(self).snapshot,
            old(self).phase != ChapterPhase::AwaitAnalysis ==> final(self).raw_analysis == old(
                self,
            ).raw_analysis,
            step_facts(*old(self), event, *final(self), action),
            action is WriteOutput ==> final(self).saved,
            action is Finish ==> final(self).saved,
            old(self).phase == ChapterPhase::AwaitAnalysis ==> match event {
                ChapterEvent::Reply(Ok(t)) => final(self).phase == ChapterPhase::AwaitDecode
                    && final(self).raw_analysis == t && (action matches ChapterAction::Decode(j)
                    && j@ == sanitized(t@)),
                ChapterEvent::Reply(Err(e)) => final(self).phase == ChapterPhase::Failed && (
                action matches ChapterAction::Abort(ChapterError::Backend(b)) && b == e),
                _ => final(self).phase == ChapterPhase::Failed && action matches ChapterAction::Abort(
                    ChapterError::OutOfOrder,
                ),
            },
            old(self).phase == ChapterPhase::AwaitDecode ==> match event {
                ChapterEvent::Decoded(Some(a)) => final(self).phase == ChapterPhase::AwaitSave
                    && final(self).snapshot.chapter_name@ == old(self).chapter_name@
                    && final(self).snapshot.summary@ == a.summary@
                    && final(self).snapshot.term_map() == old(
                    self,
                ).prior.term_map().union_prefer_right(terms_map(a.new_terms@)) && (
                action matches ChapterAction::SaveGlossary(g) && g.same_as(
                    final(self).snapshot,
                )),
                ChapterEvent::Decoded(None) => final(self).phase == ChapterPhase::Failed && (
                action matches ChapterAction::Abort(ChapterError::Parse { raw }) && raw == old(
                    self,
                ).raw_analysis),
                _ => final(self).phase == ChapterPhase::Failed && action matches ChapterAction::Abort(
                    ChapterError::OutOfOrder,
                ),
            },
            old(self).phase == ChapterPhase::AwaitSave ==> match event {
                ChapterEvent::Stored(Ok(_)) => final(self).saved && final(self).snapshot == old(
                    self,
                ).snapshot && (action is Call || action is Abort) && (action matches ChapterAction::Call(
                    q,
                ) ==> (final(self).phase == ChapterPhase::AwaitTranslation && !q.json_mode
                    && q.user_content@ == old(self).content@ && Some(q.system_prompt@)
                    == rendered(
                    old(self).settings.translation_prompt@,
                    translation_texts(old(self).settings, old(self).snapshot),
                    Seq::empty(),
                ))) && (action is Call <==> rendered(
                    old(self).settings.translation_prompt@,
                    translation_texts(old(self).settings, old(self).snapshot),
                    Seq::empty(),
                ) is Some) && (action matches ChapterAction::Abort(e) ==> (final(self).phase
                    == ChapterPhase::Failed && e is Template)),
                ChapterEvent::Stored(Err(m)) => final(self).phase == ChapterPhase::Failed && (action matches ChapterAction::Abort(
                    ChapterError::Storage(s),
                ) && s == m),
                _ => final(self).phase == ChapterPhase::Failed && action matches ChapterAction::Abort(
                    ChapterError::OutOfOrder,
                ),
            },
            old(self).phase == ChapterPhase::AwaitTranslation ==> match event {
                ChapterEvent::Reply(Ok(t)) => final(self).phase == ChapterPhase::AwaitWrite
                    && final(self).snapshot == old(self).snapshot && (
                action matches ChapterAction::WriteOutput { file_name, text } && file_name@
                    == old(self).file_name@ && text@ == unescaped(t@)),
                ChapterEvent::Reply(Err(e)) => final(self).phase == ChapterPhase::Failed
                    && final(self).saved && final(self).snapshot == old(self).snapshot && (
                action matches ChapterAction::Abort(ChapterError::Backend(b)) && b == e),
                _ => final(self).phase == ChapterPhase::Failed && final(self).snapshot == old(
                    self,
                ).snapshot && action matches ChapterAction::Abort(ChapterError::OutOfOrder),
            },
            old(self).phase == ChapterPhase::AwaitWrite ==> match event {
                ChapterEvent::Stored(Ok(_)) => final(self).phase == ChapterPhase::Complete && (
                action matches ChapterAction::Finish(g) && g.same_as(old(self).snapshot) && g.wf()),
                ChapterEvent::Stored(Err(m)) => final(self).phase == ChapterPhase::Failed && (
                action matches ChapterAction::Abort(ChapterError::Storage(s)) && s == m),
                _ => final(self).phase == ChapterPhase::Failed && action matches ChapterAction::Abort(
                    ChapterError::OutOfOrder,
                ),
            },
            old(self).phase == ChapterPhase::Complete || old(self).phase == ChapterPhase::Failed
                ==> (final(self).phase == old(self).phase && action matches ChapterAction::Abort(
                ChapterError::OutOfOrder,
            )),
    {
        match self.phase {
            ChapterPhase::AwaitAnalysis => match event {
                ChapterEvent::Reply(Ok(t)) => {
                    let json = strip_code_fences(t.as_str());
                    self.raw_analysis = t;
                    self.phase = ChapterPhase::AwaitDecode;
                    ChapterAction::Decode(json)
                },
                ChapterEvent::Reply(Err(e)) => {
                    self.phase = ChapterPhase::Failed;
                    ChapterAction::Abort(ChapterError::Backend(e))
                },
                _ => {
                    self.phase = ChapterPhase::Failed;
                    ChapterAction::Abort(ChapterError::OutOfOrder)
                },
            },
            ChapterPhase::AwaitDecode => match event {
                ChapterEvent::Decoded(Some(a)) => {
                    let snapshot = merge_analysis(&self.prior, &self.chapter_name, &a);
                    let saved_copy = snapshot.copy();
                    self.snapshot = snapshot;
                    self.phase = ChapterPhase::AwaitSave;
                    ChapterAction::SaveGlossary(saved_copy)
                },
                ChapterEvent::Decoded(None) => {
                    self.phase = ChapterPhase::Failed;
                    ChapterAction::Abort(ChapterError::Parse { raw: self.raw_analysis.clone() })
                },
                _ => {
                    self.phase = ChapterPhase::Failed;
                    ChapterAction::Abort(ChapterError::OutOfOrder)
                },
            },
            ChapterPhase::AwaitSave => match event {
                ChapterEvent::Stored(Ok(_)) => {
                    self.saved = true;
                    match translation_request(&self.settings, &self.content, &self.snapshot) {
                        Ok(q) => {
                            self.phase = ChapterPhase::AwaitTranslation;
                            ChapterAction::Call(q)
                        },
                        Err(e) => {
                            self.phase = ChapterPhase::Failed;
                            ChapterAction::Abort(e)
                        },
                    }
                },
                ChapterEvent::Stored(Err(m)) => {
                    self.phase = ChapterPhase::Failed;
                    ChapterAction::Abort(ChapterError::Storage(m))
                },
                _ => {
                    self.phase = ChapterPhase::Failed;
                    ChapterAction::Abort(ChapterError::OutOfOrder)
                },
            },
            ChapterPhase::AwaitTranslation => match event {
                ChapterEvent::Reply(Ok(t)) => {
                    self.phase = ChapterPhase::AwaitWrite;
                    ChapterAction::WriteOutput {
                        file_name: self.file_name.clone(),
                        text: unescape_newlines(t.as_str()),
                    }
                },
                ChapterEvent::Reply(Err(e)) => {
                    self.phase = ChapterPhase::Failed;
                    ChapterAction::Abort(ChapterError::Backend(e))
                },
                _ => {
                    self.phase = ChapterPhase::Failed;
                    ChapterAction::Abort(ChapterError::OutOfOrder)
                },
            },
            ChapterPhase::AwaitWrite => match event {
                ChapterEvent::Stored(Ok(_)) => {
                    self.phase = ChapterPhase::Complete;
                    ChapterAction::Finish(self.snapshot.copy())
                },
                ChapterEvent::Stored(Err(m)) => {
                    self.phase = ChapterPhase::Failed;
                    ChapterAction::Abort(ChapterError::Storage(m))
                },
                _ => {
                    self.phase = ChapterPhase::Failed;
                    ChapterAction::Abort(ChapterError::OutOfOrder)
                },
            },
            _ => ChapterAction::Abort(ChapterError::OutOfOrder),
        }
    }
}


/// The order of a chapter's phases: a step never goes back.
pub open spec fn phase_rank(p: ChapterPhase) -> nat {
    match p {
        ChapterPhase::AwaitAnalysis => 0,
        ChapterPhase::AwaitDecode => 1,
        ChapterPhase::AwaitSave => 2,
        ChapterPhase::AwaitTranslation => 3,
        ChapterPhase::AwaitWrite => 4,
        ChapterPhase::Complete => 5,
        ChapterPhase::Failed => 6,
    }
}

/// What one step from `before` on `event` to `after` with `action` keeps to: phases only
/// move forward; the snapshot is handed out to be saved when the save phase begins and is
/// not changed afterwards; the translation call goes out only after the save was reported
/// done; the translation is written only from the translation phase; a failed translation
/// call aborts; a failed chapter stays failed and aborts on every event.
pub open spec fn step_facts(
    before: ChapterRun,
    event: ChapterEvent,
    after: ChapterRun,
    action: ChapterAction,
) -> bool {
    &&& (after.phase == before.phase || phase_rank(before.phase) < phase_rank(after.phase))
    &&& (action is WriteOutput ==> (before.phase == ChapterPhase::AwaitTranslation && after.phase
        == ChapterPhase::AwaitWrite))
    &&& ((after.phase == ChapterPhase::AwaitSave && before.phase != ChapterPhase::AwaitSave) ==> (
    action matches ChapterAction::SaveGlossary(g) && g.same_as(after.snapshot)))
    &&& (before.phase == ChapterPhase::AwaitSave ==> (after.phase != ChapterPhase::AwaitSave
        && after.snapshot == before.snapshot))
    &&& ((after.phase == ChapterPhase::AwaitTranslation && before.phase
        != ChapterPhase::AwaitTranslation) ==> (before.phase == ChapterPhase::AwaitSave
        && event matches ChapterEvent::Stored(Ok(_))))
    &&& (before.phase == ChapterPhase::AwaitTranslation ==> (after.phase
        != ChapterPhase::AwaitTranslation && after.snapshot == before.snapshot))
    &&& ((before.phase == ChapterPhase::AwaitTranslation && event matches ChapterEvent::Reply(
        Err(_),
    )) ==> (after.phase == ChapterPhase::Failed && action matches ChapterAction::Abort(
        ChapterError::Backend(_),
    )))
    &&& (before.phase == ChapterPhase::Failed ==> (after.phase == ChapterPhase::Failed
        && action is Abort))
}

/// A sequence of steps of one chapter: `runs[i]` takes `events[i]` to `runs[i + 1]` with
/// `actions[i]`, from a freshly started chapter.
pub open spec fn is_trace(
    runs: Seq<ChapterRun>,
    events: Seq<ChapterEvent>,
    actions: Seq<ChapterAction>,
) -> bool {
    &&& runs.len() == events.len() + 1
    &&& actions.len() == events.len()
    &&& runs[0].phase == ChapterPhase::AwaitAnalysis
    &&& forall|i: int|
        0 <= i < events.len() ==> #[trigger] step_facts(runs[i], events[i], runs[i + 1], actions[i])
}

proof fn lemma_rank_grows(
    runs: Seq<ChapterRun>,
    events: Seq<ChapterEvent>,
    actions: Seq<ChapterAction>,
    i: int,
    m: int,
)
    requires
        is_trace(runs, events, actions),
        0 <= i <= m <= events.len(),
    ensures
        phase_rank(runs[i].phase) <= phase_rank(runs[m].phase),
    decreases m - i,
{
    if i < m {
        assert(step_facts(runs[i], events[i], runs[i + 1], actions[i]));
        lemma_rank_grows(runs, events, actions, i + 1, m);
    }
}

proof fn lemma_failed_stays(
    runs: Seq<ChapterRun>,
    events: Seq<ChapterEvent>,
    actions: Seq<ChapterAction>,
    k: int,
    m: int,
)
    requires
        is_trace(runs, events, actions),
        0 <= k <= m <= events.len(),
        runs[k].phase == ChapterPhase::Failed,
    ensures
        runs[m].phase == ChapterPhase::Failed,
    decreases m - k,
{
    if k < m {
        assert(step_facts(runs[k], events[k], runs[k + 1], actions[k]));
        lemma_failed_stays(runs, events, actions, k + 1, m);
    }
}

/// When the translation call of a chapter fails, the chapter aborts; the snapshot it
/// holds is the one handed out to be saved two steps before, whose save was reported
/// done; and in the whole run no translation is ever asked to be written.
pub proof fn translation_failure_keeps_snapshot(
    runs: Seq<ChapterRun>,
    events: Seq<ChapterEvent>,
    actions: Seq<ChapterAction>,
    k: int,
)
    requires
        is_trace(runs, events, actions),
        0 <= k < events.len(),
        runs[k].phase == ChapterPhase::AwaitTranslation,
        events[k] matches ChapterEvent::Reply(Err(_)),
    ensures
        actions[k] matches ChapterAction::Abort(ChapterError::Backend(_)),
        runs[k + 1].phase == ChapterPhase::Failed,
        k >= 2,
        actions[k - 2] matches ChapterAction::SaveGlossary(g) && g.same_as(runs[k + 1].snapshot),
        events[k - 1] matches ChapterEvent::Stored(Ok(_)),
        forall|i: int| 0 <= i < events.len() ==> !(#[trigger] actions[i] is WriteOutput),
{
    assert(step_facts(runs[k], events[k], runs[k + 1], actions[k]));
    assert(k >= 1);
    assert(step_facts(runs[k - 1], events[k - 1], runs[k - 1 + 1], actions[k - 1]));
    assert(k >= 2);
    assert(step_facts(runs[k - 2], events[k - 2], runs[k - 2 + 1], actions[k - 2]));
    assert forall|i: int| 0 <= i < events.len() implies !(#[trigger] actions[i] is WriteOutput) by {
        assert(step_facts(runs[i], events[i], runs[i + 1], actions[i]));
        if i < k {
            if actions[i] is WriteOutput {
                lemma_rank_grows(runs, events, actions, i + 1, k);
            }
        } else if i > k {
            lemma_failed_stays(runs, events, actions, k + 1, i);
        }
    }
}

} // verus!
