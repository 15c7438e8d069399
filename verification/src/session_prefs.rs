//! What the user has chosen last in a session.
//!
//! A new session starts with the choices of the last one. They are kept in a file
//! that is replaced whole: a crash while it is written leaves the old choices.

use vstd::prelude::*;
use vstd::string::*;

use crate::lists;
use crate::text;

verus! {

/// The file, below the directory of the product.
pub const PREFS_FILE: &'static str = "last-session-prefs.json";

/// The file that is written first.
pub const PREFS_TEMP_FILE: &'static str = "last-session-prefs.json.tmp";

/// The choices of the user; `None` leaves the default of the agent.
#[derive(Debug, Clone, PartialEq, Eq)]
pub struct Prefs {
    pub model: Option<String>,
    pub thinking: Option<String>,
    pub context: Option<String>,
}

/// The model of the choices.
pub ghost struct PrefsModel {
    pub model: Option<Seq<char>>,
    pub thinking: Option<Seq<char>>,
    pub context: Option<Seq<char>>,
}

impl View for Prefs {
    type V = PrefsModel;

    open spec fn view(&self) -> PrefsModel {
        PrefsModel {
            model: lists::text_of(self.model),
            thinking: lists::text_of(self.thinking),
            context: lists::text_of(self.context),
        }
    }
}

/// Nothing was chosen.
pub open spec fn none_chosen() -> PrefsModel {
    PrefsModel { model: None, thinking: None, context: None }
}

impl Default for Prefs {
    fn default() -> (r: Self)
        ensures
            r@ == none_chosen(),
            r == (Prefs { model: None, thinking: None, context: None }),
    {
        Prefs { model: None, thinking: None, context: None }
    }
}

fn same_text(a: &Option<String>, b: &Option<String>) -> (r: bool)
    ensures
        r == (lists::text_of(*a) == lists::text_of(*b)),
{
    match (a, b) {
        (Some(x), Some(y)) => text::same(x.as_str(), y.as_str()),
        (None, None) => true,
        _ => false,
    }
}

impl Prefs {
    /// Whether nothing was chosen.
    pub fn is_empty(&self) -> (r: bool)
        ensures
            r == (self@ == none_chosen()),
    {
        self.model.is_none() && self.thinking.is_none() && self.context.is_none()
    }

    /// Whether the choices are the same.
    pub fn same_as(&self, other: &Prefs) -> (r: bool)
        ensures
            r == (self@ == other@),
    {
        same_text(&self.model, &other.model) && same_text(&self.thinking, &other.thinking)
            && same_text(&self.context, &other.context)
    }

    /// The same choices.
    pub fn duplicate(&self) -> (r: Self)
        ensures
            r == *self,
    {
        Prefs {
            model: lists::copy_text(&self.model),
            thinking: lists::copy_text(&self.thinking),
            context: lists::copy_text(&self.context),
        }
    }
}

// ---------------------------------------------------------------------------
// Reading
// ---------------------------------------------------------------------------

/// The model of choices that may be missing.
pub open spec fn prefs_model(p: Option<Prefs>) -> Option<PrefsModel> {
    match p {
        Some(x) => Some(x@),
        None => None,
    }
}

/// The choices that count: where the file holds none it is as if it were not there.
pub open spec fn counting(stored: Option<PrefsModel>) -> Option<PrefsModel> {
    match stored {
        Some(p) => if p == none_chosen() {
            None
        } else {
            Some(p)
        },
        None => None,
    }
}

/// The choices to start a session with, from what the file holds; `None` where there
/// is no file, or it cannot be read.
pub fn load(stored: Option<Prefs>) -> (r: Option<Prefs>)
    ensures
        prefs_model(r) == counting(prefs_model(stored)),
        r is Some ==> r == stored,
{
    match stored {
        Some(p) => if p.is_empty() {
            None
        } else {
            Some(p)
        },
        None => None,
    }
}

// ---------------------------------------------------------------------------
// Writing
// ---------------------------------------------------------------------------

/// A step of writing the file.
#[derive(Clone, Copy, Debug, PartialEq, Eq, Structural)]
pub enum SaveStep {
    /// Make the directory.
    CreateDir,
    /// Write the choices to the file next to it.
    WriteTemp,
    /// Have them reach the disk.
    Sync,
    /// Rename that file over the other.
    Rename,
    /// The end.
    Ended { saved: bool },
}

/// The step after one that succeeded or failed.
pub open spec fn after(step: SaveStep, ok: bool) -> SaveStep {
    match step {
        SaveStep::Ended { .. } => step,
        _ => if !ok {
            SaveStep::Ended { saved: false }
        } else {
            match step {
                SaveStep::CreateDir => SaveStep::WriteTemp,
                SaveStep::WriteTemp => SaveStep::Sync,
                SaveStep::Sync => SaveStep::Rename,
                _ => SaveStep::Ended { saved: true },
            }
        },
    }
}

/// Choices that are being written.
#[derive(Debug)]
pub struct Saving {
    pub prefs: Prefs,
    pub step: SaveStep,
}

impl Saving {
    /// Goes on after a step that succeeded or failed.
    pub fn advance(&mut self, ok: bool)
        ensures
            final(self).step == after(old(self).step, ok),
            final(self).prefs == old(self).prefs,
    {
        self.step = match self.step {
            SaveStep::Ended { .. } => self.step,
            _ => if !ok {
                SaveStep::Ended { saved: false }
            } else {
                match self.step {
                    SaveStep::CreateDir => SaveStep::WriteTemp,
                    SaveStep::WriteTemp => SaveStep::Sync,
                    SaveStep::Sync => SaveStep::Rename,
                    _ => SaveStep::Ended { saved: true },
                }
            },
        };
    }
}

/// Begins to write choices.
pub fn save(prefs: &Prefs) -> (r: Saving)
    ensures
        r.prefs == *prefs,
        r.step == SaveStep::CreateDir,
{
    Saving { prefs: prefs.duplicate(), step: SaveStep::CreateDir }
}

/// The choices to change: those that count, or none.
pub open spec fn current(stored: Option<Prefs>) -> Prefs {
    match stored {
        Some(p) => if p@ == none_chosen() {
            Prefs { model: None, thinking: None, context: None }
        } else {
            p
        },
        None => Prefs { model: None, thinking: None, context: None },
    }
}

/// The change gives these choices.
pub open spec fn changed_to<F: FnOnce(Prefs) -> Prefs>(
    mutate: F,
    stored: Option<Prefs>,
    after: Prefs,
) -> bool {
    call_ensures(mutate, (current(stored),), after)
}

/// Changes the choices that the file holds; the result is to be written where it
/// differs from what was there.
pub fn update<F: FnOnce(Prefs) -> Prefs>(stored: Option<Prefs>, mutate: F) -> (r: Option<Saving>)
    requires
        call_requires(mutate, (current(stored),)),
    ensures
        match r {
            Some(s) => s.step == SaveStep::CreateDir && changed_to(mutate, stored, s.prefs)
                && s.prefs@ != current(stored)@,
            None => exists|after: Prefs| #[trigger]
                changed_to(mutate, stored, after) && after@ == current(stored)@,
        },
{
    let prefs = match load(stored) {
        Some(p) => p,
        None => Prefs::default(),
    };
    let before = prefs.duplicate();
    assert(prefs == current(stored));
    let after = mutate(prefs);
    assert(changed_to(mutate, stored, after));
    if after.same_as(&before) {
        None
    } else {
        Some(save(&after))
    }
}

// ---------------------------------------------------------------------------
// What writing does to the files
// ---------------------------------------------------------------------------

/// What a file holds.
pub ghost enum FileState {
    Missing,
    /// Something that was not written to its end.
    Torn,
    Whole(PrefsModel),
}

/// The two files.
pub ghost struct Files {
    pub target: FileState,
    pub temp: FileState,
}

/// A step on the files: a write that fails may leave half a file; a rename puts one
/// file in the place of another, or does nothing.
pub open spec fn perform(f: Files, step: SaveStep, prefs: PrefsModel, granted: bool) -> Files {
    match step {
        SaveStep::WriteTemp => Files {
            temp: if granted {
                FileState::Whole(prefs)
            } else {
                FileState::Torn
            },
            ..f
        },
        SaveStep::Rename => if granted {
            Files { target: f.temp, temp: FileState::Missing }
        } else {
            f
        },
        _ => f,
    }
}

/// The files and the step after these outcomes, one for each step.
pub open spec fn run(
    f: Files,
    step: SaveStep,
    prefs: PrefsModel,
    granted: Seq<bool>,
) -> (Files, SaveStep)
    decreases granted.len(),
{
    if granted.len() == 0 || step is Ended {
        (f, step)
    } else {
        run(
            perform(f, step, prefs, granted[0]),
            after(step, granted[0]),
            prefs,
            granted.skip(1),
        )
    }
}

/// What holds at each step.
spec fn holds(f: Files, step: SaveStep, prefs: PrefsModel, first: FileState) -> bool {
    match step {
        SaveStep::Sync => f.target == first && f.temp == FileState::Whole(prefs),
        SaveStep::Rename => f.target == first && f.temp == FileState::Whole(prefs),
        SaveStep::Ended { saved } => f.target == (if saved {
            FileState::Whole(prefs)
        } else {
            first
        }),
        _ => f.target == first,
    }
}

proof fn lemma_run(
    f: Files,
    step: SaveStep,
    prefs: PrefsModel,
    granted: Seq<bool>,
    first: FileState,
)
    requires
        holds(f, step, prefs, first),
    ensures
        holds(run(f, step, prefs, granted).0, run(f, step, prefs, granted).1, prefs, first),
    decreases granted.len(),
{
    if granted.len() > 0 && !(step is Ended) {
        lemma_run(
            perform(f, step, prefs, granted[0]),
            after(step, granted[0]),
            prefs,
            granted.skip(1),
            first,
        );
    }
}

/// The file is replaced whole: wherever writing is interrupted, it holds what it held
/// before or all of the new choices; and the new ones exactly when they were saved.
pub proof fn law_file_is_replaced_whole(f: Files, prefs: PrefsModel, granted: Seq<bool>)
    ensures
        ({
            let (g, step) = run(f, SaveStep::CreateDir, prefs, granted);
            &&& g.target == f.target || g.target == FileState::Whole(prefs)
            &&& step == (SaveStep::Ended { saved: true }) ==> g.target == FileState::Whole(prefs)
            &&& step == (SaveStep::Ended { saved: false }) ==> g.target == f.target
        }),
{
    lemma_run(f, SaveStep::CreateDir, prefs, granted, f.target);
}

/// What was saved is read back: the file holds the choices once every step was
/// granted, and they count unless nothing was chosen.
pub proof fn law_saved_choices_are_read_back(f: Files, prefs: PrefsModel)
    ensures
        run(f, SaveStep::CreateDir, prefs, seq![true, true, true, true]).0.target
            == FileState::Whole(prefs),
        counting(Some(prefs)) == (if prefs == none_chosen() {
            None
        } else {
            Some(prefs)
        }),
{
    let four = seq![true, true, true, true];
    reveal_with_fuel(run, 5);
    assert(four.skip(1) =~= seq![true, true, true]);
    assert(seq![true, true, true].skip(1) =~= seq![true, true]);
    assert(seq![true, true].skip(1) =~= seq![true]);
    assert(seq![true].skip(1) =~= Seq::<bool>::empty());
}

/// Any one choice makes the choices count, and nothing chosen is as no file: a session then
/// starts with the defaults of the agent.
pub proof fn law_any_choice_counts(p: Prefs)
    ensures
        p.model is Some || p.thinking is Some || p.context is Some ==> counting(Some(p@)) == Some(
            p@,
        ) && current(Some(p)) == p,
        p.model is None && p.thinking is None && p.context is None ==> counting(Some(p@)) is None
            && current(Some(p)) == current(None),
        counting(None) is None,
        current(None).model is None && current(None).thinking is None && current(None).context
            is None,
{
}

/// The file is renamed only after all of it was written and has reached the disk, and a step
/// that fails ends the attempt without a save.
pub proof fn law_nothing_is_renamed_unwritten(step: SaveStep, ok: bool)
    ensures
        after(step, ok) is Rename ==> step is Sync && ok,
        after(step, ok) is Sync ==> step is WriteTemp && ok,
        after(step, ok) is WriteTemp ==> step is CreateDir && ok,
        !(step is Ended) && !ok ==> after(step, ok) == (SaveStep::Ended { saved: false }),
        step is Rename && ok ==> after(step, ok) == (SaveStep::Ended { saved: true }),
        step is Ended ==> after(step, ok) == step,
{
}

} // verus!
