//! The skills that are listed in the settings.

use vstd::prelude::*;

verus! {

/// The skills that are known.
#[derive(Debug)]
pub struct SkillIndex<S> {
    pub global_skills: Vec<S>,
    pub project_skills: Vec<S>,
}

/// What could be read, in order.
pub open spec fn readable<S, E>(results: Seq<Result<S, E>>) -> Seq<S>
    decreases results.len(),
{
    if results.len() == 0 {
        Seq::empty()
    } else {
        match results.last() {
            Ok(s) => readable(results.drop_last()).push(s),
            Err(_) => readable(results.drop_last()),
        }
    }
}

/// The index after the directory of skills was read: those that could be read take
/// the place of the global ones; the ones of projects stay.
pub fn refresh_global_skill_index<S, E>(
    results: Vec<Result<S, E>>,
    index: Option<SkillIndex<S>>,
) -> (r: SkillIndex<S>)
    ensures
        r.global_skills@ == readable(results@),
        r.project_skills@ == (match index {
            Some(i) => i.project_skills@,
            None => Seq::empty(),
        }),
{
    let ghost all = results@;
    let mut left = results;
    let mut global_skills: Vec<S> = Vec::new();
    let ghost mut done: int = 0;
    assert(all.take(0) =~= Seq::empty());
    assert(all.skip(0) =~= all);
    while left.len() > 0
        invariant
            0 <= done <= all.len(),
            left@ == all.skip(done),
            global_skills@ == readable(all.take(done)),
        decreases left.len(),
    {
        proof {
            assert(all.take(done + 1).drop_last() =~= all.take(done));
            assert(all.take(done + 1).last() == all[done]);
        }
        let first = left.remove(0);
        match first {
            Ok(s) => global_skills.push(s),
            Err(_) => {},
        }
        proof {
            assert(all.skip(done).remove(0) =~= all.skip(done + 1));
            done = done + 1;
        }
    }
    assert(all.take(done) =~= all);
    let project_skills = match index {
        Some(i) => i.project_skills,
        None => Vec::new(),
    };
    SkillIndex { global_skills, project_skills }
}

/// A skill that could be read is listed behind those before it; one that could not is passed
/// over, and does not keep the others out.
pub proof fn law_readable_skills_are_listed<S, E>(results: Seq<Result<S, E>>, s: S, e: E)
    ensures
        readable(results.push(Ok(s))) == readable(results).push(s),
        readable(results.push(Err(e))) == readable(results),
        readable(Seq::<Result<S, E>>::empty()).len() == 0,
{
    assert(results.push(Ok(s)).drop_last() =~= results);
    assert(results.push(Err(e)).drop_last() =~= results);
}

} // verus!
