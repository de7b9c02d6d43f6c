//! The prompts of the repositories.

use vstd::prelude::*;

use crate::db::order::{
    is_order, key_values, keys_are_totally_ordered, order_lists_each_row_once, order_of, row_before,
    rows_have_an_order, the_order, time_key, time_keys_follow_time,
};
use crate::db::{next_id, next_id_is_higher, raise_next_id, DbError};
use crate::domain::ids::{PromptId, RepoId};
use crate::domain::prompt::{NewPrompt, Prompt, PromptText};
use crate::text::{is_blank, trimmed, trimmed_is_empty_iff_blank};
use crate::time::{
    is_stored_as, is_writable, read_text, second_starts_without_nanos, stored_instant, Column,
    Timestamp, INVALID_DATE,
};

verus! {

/// The ids of a list of prompts.
pub open spec fn prompt_ids(prompts: Seq<Prompt>) -> Seq<i64> {
    prompts.map_values(|p: Prompt| p.id.0)
}

/// All prompts have different ids.
pub open spec fn unique_prompt_ids(prompts: Seq<Prompt>) -> bool {
    forall|i: int, j: int| 0 <= i < j < prompts.len() ==> prompts[i].id != prompts[j].id
}

fn fresh_id(prompts: &Vec<Prompt>) -> (r: Option<i64>)
    ensures
        r matches Some(n) ==> next_id(prompt_ids(prompts@)) == n,
        r is None ==> next_id(prompt_ids(prompts@)) > i64::MAX,
{
    let mut next: Option<i64> = Some(1);
    let mut i: usize = 0;
    assert(prompt_ids(prompts@).take(0) =~= Seq::<i64>::empty());
    while i < prompts.len()
        invariant
            i <= prompts@.len(),
            next matches Some(n) ==> next_id(prompt_ids(prompts@).take(i as int)) == n,
            next is None ==> next_id(prompt_ids(prompts@).take(i as int)) > i64::MAX,
        decreases prompts.len() - i,
    {
        let ghost ids = prompt_ids(prompts@);
        assert(ids.take(i + 1) =~= ids.take(i as int).push(prompts@[i as int].id.0));
        next = raise_next_id(next, prompts[i].id.0);
        i += 1;
    }
    assert(prompt_ids(prompts@).take(i as int) =~= prompt_ids(prompts@));
    next
}

/// A prompt as it is created: enabled, with its creation noted to the second.
pub open spec fn created_prompt(new_prompt: NewPrompt, id: PromptId, now: Timestamp) -> Prompt {
    Prompt {
        id,
        repo_id: new_prompt.repo_id,
        name: new_prompt.name,
        text: new_prompt.text,
        enabled: true,
        is_default: new_prompt.is_default,
        created_at: now.at_second(),
    }
}

/// Creates a new prompt, under a new id. It is enabled.
pub fn create(prompts: &mut Vec<Prompt>, new_prompt: NewPrompt, now: Timestamp) -> (r: Result<
    Prompt,
    DbError,
>)
    ensures
        match r {
            Ok(prompt) => {
                &&& prompt == created_prompt(new_prompt, prompt.id, now)
                &&& prompt.created_at.secs() == now.secs()
                &&& prompt.created_at.nanos() == 0
                &&& prompt.id.0 == next_id(prompt_ids(old(prompts)@))
                &&& final(prompts)@ == old(prompts)@.push(prompt)
                &&& unique_prompt_ids(old(prompts)@) ==> unique_prompt_ids(final(prompts)@)
            },
            Err(e) => e == DbError::TableFull && next_id(prompt_ids(old(prompts)@)) > i64::MAX
                && final(prompts)@ == old(prompts)@,
        },
{
    match fresh_id(prompts) {
        Some(id) => {
            proof {
                next_id_is_higher(prompt_ids(prompts@));
                assert forall|i: int| 0 <= i < prompts@.len() implies prompts@[i].id.0 != id by {
                    assert(prompt_ids(prompts@)[i] == prompts@[i].id.0);
                }
            }
            let prompt = Prompt {
                id: PromptId::new(id),
                repo_id: new_prompt.repo_id,
                name: new_prompt.name,
                text: new_prompt.text,
                enabled: true,
                is_default: new_prompt.is_default,
                created_at: now.whole_second(),
            };
            prompts.push(prompt.clone());
            Ok(prompt)
        },
        None => Err(DbError::TableFull),
    }
}

/// The prompt at `k` is the first with the given id.
pub open spec fn is_prompt_at(prompts: Seq<Prompt>, id: PromptId, k: int) -> bool {
    &&& 0 <= k < prompts.len()
    &&& prompts[k].id == id
    &&& forall|j: int| 0 <= j < k ==> (#[trigger] prompts[j]).id != id
}

/// Some prompt has the given id.
pub open spec fn has_prompt(prompts: Seq<Prompt>, id: PromptId) -> bool {
    exists|k: int| 0 <= k < prompts.len() && (#[trigger] prompts[k]).id == id
}

/// Gets a prompt by ID.
pub fn get_by_id(prompts: &Vec<Prompt>, id: PromptId) -> (r: Option<Prompt>)
    ensures
        match r {
            Some(prompt) => has_prompt(prompts@, id) && exists|k: int| #[trigger]
                is_prompt_at(prompts@, id, k) && prompt == prompts@[k],
            None => !has_prompt(prompts@, id),
        },
{
    let mut i: usize = 0;
    while i < prompts.len()
        invariant
            i <= prompts@.len(),
            forall|j: int| 0 <= j < i ==> (#[trigger] prompts@[j]).id != id,
        decreases prompts.len() - i,
    {
        if prompts[i].id == id {
            assert(is_prompt_at(prompts@, id, i as int));
            return Some(prompts[i].clone());
        }
        i += 1;
    }
    None
}

/// A prompt that was created is found under its id, in its repository and in no other.
pub proof fn created_prompt_is_found(prompts: Seq<Prompt>, prompt: Prompt, repo_id: RepoId)
    requires
        prompt.id.0 == next_id(prompt_ids(prompts)),
    ensures
        is_prompt_at(prompts.push(prompt), prompt.id, prompts.len() as int),
        has_prompt(prompts.push(prompt), prompt.id),
        (exists|k: int|
            0 <= k < prompts.push(prompt).len() && is_owned(
                #[trigger] prompts.push(prompt)[k],
                prompt.id,
                repo_id,
            )) == (repo_id == prompt.repo_id),
{
    next_id_is_higher(prompt_ids(prompts));
    assert forall|j: int| 0 <= j < prompts.len() implies (#[trigger] prompts.push(prompt)[j]).id
        != prompt.id by {
        assert(prompt_ids(prompts)[j] == prompts[j].id.0);
    }
    assert(prompts.push(prompt)[prompts.len() as int] == prompt);
}

/// The prompt has the given id and belongs to the repository.
pub open spec fn is_owned(prompt: Prompt, id: PromptId, repo_id: RepoId) -> bool {
    prompt.id == id && prompt.repo_id == repo_id
}

/// Gets a prompt by ID, where it belongs to the given repository.
pub fn get_by_id_and_repo(prompts: &Vec<Prompt>, id: PromptId, repo_id: RepoId) -> (r: Option<
    Prompt,
>)
    ensures
        match r {
            Some(prompt) => is_owned(prompt, id, repo_id) && exists|k: int|
                0 <= k < prompts@.len() && prompt == #[trigger] prompts@[k] && forall|j: int|
                    0 <= j < k ==> !is_owned(#[trigger] prompts@[j], id, repo_id),
            None => forall|k: int|
                0 <= k < prompts@.len() ==> !is_owned(#[trigger] prompts@[k], id, repo_id),
        },
{
    let mut i: usize = 0;
    while i < prompts.len()
        invariant
            i <= prompts@.len(),
            forall|j: int| 0 <= j < i ==> !is_owned(#[trigger] prompts@[j], id, repo_id),
        decreases prompts.len() - i,
    {
        if prompts[i].id == id && prompts[i].repo_id == repo_id {
            return Some(prompts[i].clone());
        }
        i += 1;
    }
    None
}

// --- Listing ---

/// The prompts of a repository, in the order of the table; of these only the enabled ones, where
/// that is asked.
pub open spec fn prompts_of(prompts: Seq<Prompt>, repo_id: RepoId, only_enabled: bool) -> Seq<
    Prompt,
> {
    prompts.filter(|p: Prompt| p.repo_id == repo_id && (only_enabled ==> p.enabled))
}

/// The sort key that puts default prompts first, and prompts in the order of their creation.
pub open spec fn prompt_key(prompt: Prompt) -> Seq<i64> {
    seq![
        if prompt.is_default {
            0i64
        } else {
            1i64
        },
    ] + time_key(prompt.created_at)
}

/// The sort keys of a list of prompts.
pub open spec fn prompt_keys(prompts: Seq<Prompt>) -> Seq<Seq<i64>> {
    prompts.map_values(|p: Prompt| prompt_key(p))
}

/// The rows of a list, taken in the given order.
pub open spec fn in_order(prompts: Seq<Prompt>, order: Seq<usize>) -> Seq<Prompt> {
    order.map_values(|i: usize| prompts[i as int])
}

/// The given rows, default prompts first, and in the order of their creation.
pub open spec fn listing_of(rows: Seq<Prompt>) -> Seq<Prompt> {
    in_order(rows, the_order(prompt_keys(rows)))
}

fn select(prompts: &Vec<Prompt>, repo_id: RepoId, only_enabled: bool) -> (r: Vec<Prompt>)
    ensures
        r@ == prompts_of(prompts@, repo_id, only_enabled),
{
    let mut rows: Vec<Prompt> = Vec::new();
    let mut i: usize = 0;
    proof {
        reveal(Seq::filter);
    }
    assert(prompts@.take(0) =~= Seq::<Prompt>::empty());
    while i < prompts.len()
        invariant
            i <= prompts@.len(),
            rows@ == prompts_of(prompts@.take(i as int), repo_id, only_enabled),
        decreases prompts.len() - i,
    {
        proof {
            reveal(Seq::filter);
        }
        assert(prompts@.take(i + 1).drop_last() =~= prompts@.take(i as int));
        if prompts[i].repo_id == repo_id && (!only_enabled || prompts[i].enabled) {
            rows.push(prompts[i].clone());
        }
        i += 1;
    }
    assert(prompts@.take(i as int) =~= prompts@);
    rows
}

fn listing(rows: &Vec<Prompt>) -> (r: Vec<Prompt>)
    ensures
        r@ == listing_of(rows@),
        r@.len() == rows@.len(),
{
    let mut keys: Vec<Vec<i64>> = Vec::new();
    let mut i: usize = 0;
    while i < rows.len()
        invariant
            i <= rows@.len(),
            keys@.len() == i,
            forall|j: int| 0 <= j < i ==> (#[trigger] keys@[j])@ == prompt_key(rows@[j]),
        decreases rows.len() - i,
    {
        let mut key: Vec<i64> = Vec::new();
        let secs = rows[i].created_at.seconds();
        let nanos = rows[i].created_at.subsec_nanos();
        key.push(
            if rows[i].is_default {
                0i64
            } else {
                1i64
            },
        );
        key.push(secs);
        key.push(nanos as i64);
        assert(key@ =~= prompt_key(rows@[i as int]));
        keys.push(key);
        i += 1;
    }
    assert(key_values(keys@) =~= prompt_keys(rows@));
    let order = order_of(&keys);
    let mut out: Vec<Prompt> = Vec::new();
    let mut k: usize = 0;
    while k < order.len()
        invariant
            k <= order@.len(),
            is_order(prompt_keys(rows@), order@),
            out@.len() == k,
            forall|j: int| 0 <= j < k ==> #[trigger] out@[j] == rows@[order@[j] as int],
        decreases order.len() - k,
    {
        assert(order@[k as int] < prompt_keys(rows@).len());
        out.push(rows[order[k]].clone());
        k += 1;
    }
    assert(out@ =~= in_order(rows@, order@));
    out
}

/// Lists all prompts for a repository: default prompts first, and in the order of their creation.
pub fn list_by_repo(prompts: &Vec<Prompt>, repo_id: RepoId) -> (r: Vec<Prompt>)
    ensures
        r@ == listing_of(prompts_of(prompts@, repo_id, false)),
{
    listing(&select(prompts, repo_id, false))
}

/// Lists all enabled prompts for a repository, in the same order.
pub fn list_enabled_by_repo(prompts: &Vec<Prompt>, repo_id: RepoId) -> (r: Vec<Prompt>)
    ensures
        r@ == listing_of(prompts_of(prompts@, repo_id, true)),
        (r@.len() == 0) == !any_enabled(prompts@, repo_id),
{
    let rows = select(prompts, repo_id, true);
    proof {
        enabled_prompts_exist(prompts@, repo_id);
    }
    listing(&rows)
}

/// Counts prompts for a repository.
pub fn count_by_repo(prompts: &Vec<Prompt>, repo_id: RepoId) -> (r: usize)
    ensures
        r == prompts_of(prompts@, repo_id, false).len(),
{
    select(prompts, repo_id, false).len()
}

/// Some prompt of the repository is enabled.
pub open spec fn any_enabled(prompts: Seq<Prompt>, repo_id: RepoId) -> bool {
    exists|k: int|
        0 <= k < prompts.len() && (#[trigger] prompts[k]).repo_id == repo_id && prompts[k].enabled
}

/// Reviews find prompts to run exactly where some prompt of the repository is enabled.
pub proof fn enabled_prompts_exist(prompts: Seq<Prompt>, repo_id: RepoId)
    ensures
        any_enabled(prompts, repo_id) == (prompts_of(prompts, repo_id, true).len() > 0),
    decreases prompts.len(),
{
    reveal(Seq::filter);
    if prompts.len() > 0 {
        let shorter = prompts.drop_last();
        enabled_prompts_exist(shorter, repo_id);
        if any_enabled(shorter, repo_id) {
            let k = choose|k: int|
                0 <= k < shorter.len() && (#[trigger] shorter[k]).repo_id == repo_id
                    && shorter[k].enabled;
            assert(prompts[k] == shorter[k]);
        }
        if any_enabled(prompts, repo_id) {
            let k = choose|k: int|
                0 <= k < prompts.len() && (#[trigger] prompts[k]).repo_id == repo_id
                    && prompts[k].enabled;
            if k < shorter.len() {
                assert(shorter[k] == prompts[k]);
            }
        }
    }
}

/// Checks if a repository has any enabled prompt.
pub fn has_enabled_prompts(prompts: &Vec<Prompt>, repo_id: RepoId) -> (r: bool)
    ensures
        r == any_enabled(prompts@, repo_id),
{
    let mut i: usize = 0;
    while i < prompts.len()
        invariant
            i <= prompts@.len(),
            forall|j: int|
                0 <= j < i ==> !((#[trigger] prompts@[j]).repo_id == repo_id
                    && prompts@[j].enabled),
        decreases prompts.len() - i,
    {
        if prompts[i].repo_id == repo_id && prompts[i].enabled {
            return true;
        }
        i += 1;
    }
    false
}

// --- Changing ---

/// The prompt after an update of its name, its text and whether it is enabled.
pub open spec fn is_updated(
    before: Prompt,
    after: Prompt,
    name: Seq<char>,
    text: PromptText,
    enabled: bool,
) -> bool {
    after.name@ == name && after == (Prompt { name: after.name, text, enabled, ..before })
}

/// Updates a prompt's name, text and enabled status. Tells whether there was one.
pub fn update(
    prompts: &mut Vec<Prompt>,
    id: PromptId,
    name: &str,
    text: &PromptText,
    enabled: bool,
) -> (r: bool)
    ensures
        r == has_prompt(old(prompts)@, id),
        final(prompts)@.len() == old(prompts)@.len(),
        forall|i: int|
            0 <= i < old(prompts)@.len() ==> if old(prompts)@[i].id == id {
                is_updated(old(prompts)@[i], #[trigger] final(prompts)@[i], name@, *text, enabled)
            } else {
                final(prompts)@[i] == old(prompts)@[i]
            },
        unique_prompt_ids(old(prompts)@) ==> unique_prompt_ids(final(prompts)@),
{
    let ghost before = prompts@;
    let mut found = false;
    let mut i: usize = 0;
    while i < prompts.len()
        invariant
            i <= prompts@.len(),
            prompts@.len() == before.len(),
            found == exists|k: int| 0 <= k < i && (#[trigger] before[k]).id == id,
            forall|j: int|
                0 <= j < i ==> if before[j].id == id {
                    is_updated(before[j], #[trigger] prompts@[j], name@, *text, enabled)
                } else {
                    prompts@[j] == before[j]
                },
            forall|j: int| i <= j < prompts@.len() ==> #[trigger] prompts@[j] == before[j],
        decreases prompts.len() - i,
    {
        assert(prompts@[i as int] == before[i as int]);
        if prompts[i].id == id {
            found = true;
            let mut prompt = prompts[i].clone();
            prompt.name = name.to_owned();
            prompt.text = text.clone();
            prompt.enabled = enabled;
            prompts.set(i, prompt);
        }
        i += 1;
    }
    proof {
        if unique_prompt_ids(before) {
            assert forall|i: int, j: int| 0 <= i < j < prompts@.len() implies prompts@[i].id
                != prompts@[j].id by {
                assert(before[i].id != before[j].id);
            }
        }
    }
    found
}

/// Deletes a prompt by ID. Tells whether there was one.
pub fn delete(prompts: &mut Vec<Prompt>, id: PromptId) -> (r: bool)
    ensures
        final(prompts)@ == old(prompts)@.filter(|x: Prompt| x.id != id),
        r == has_prompt(old(prompts)@, id),
        !has_prompt(final(prompts)@, id),
        unique_prompt_ids(old(prompts)@) ==> unique_prompt_ids(final(prompts)@),
{
    let mut kept: Vec<Prompt> = Vec::new();
    let mut found = false;
    let mut i: usize = 0;
    proof {
        reveal(Seq::filter);
    }
    assert(prompts@.take(0) =~= Seq::<Prompt>::empty());
    while i < prompts.len()
        invariant
            i <= prompts@.len(),
            prompts@ == old(prompts)@,
            kept@ == prompts@.take(i as int).filter(|x: Prompt| x.id != id),
            found == exists|k: int| 0 <= k < i && (#[trigger] prompts@[k]).id == id,
            forall|k: int| 0 <= k < kept@.len() ==> (#[trigger] kept@[k]).id != id,
            unique_prompt_ids(prompts@) ==> unique_prompt_ids(kept@),
            unique_prompt_ids(prompts@) ==> forall|k: int, j: int|
                0 <= k < kept@.len() && i <= j < prompts@.len() ==> kept@[k].id != prompts@[j].id,
        decreases prompts.len() - i,
    {
        proof {
            reveal(Seq::filter);
        }
        assert(prompts@.take(i + 1).drop_last() =~= prompts@.take(i as int));
        if prompts[i].id == id {
            found = true;
        } else {
            kept.push(prompts[i].clone());
        }
        i += 1;
    }
    assert(prompts@.take(i as int) =~= prompts@);
    *prompts = kept;
    found
}

// --- Rows ---

/// Database row for the prompts table.
#[derive(Debug)]
pub struct PromptRow {
    /// The prompt's id.
    pub id: i64,
    /// The repository it belongs to.
    pub repo_id: i64,
    /// Its name.
    pub name: String,
    /// Its text.
    pub text: String,
    /// Whether reviews run it.
    pub enabled: bool,
    /// Whether it is the repository's default prompt.
    pub is_default: bool,
    /// When it was created.
    pub created_at: String,
}

/// What is wrong with a row, where it is no prompt.
pub open spec fn prompt_row_error(row: PromptRow) -> Option<Seq<char>> {
    if is_blank(row.text@) {
        Some("empty prompt text in database"@)
    } else if stored_instant(row.created_at@) is None {
        Some(INVALID_DATE@)
    } else {
        None
    }
}

/// The prompt is what the row holds.
pub open spec fn is_prompt_of_row(prompt: Prompt, row: PromptRow) -> bool {
    &&& prompt.id.0 == row.id
    &&& prompt.repo_id.0 == row.repo_id
    &&& prompt.name == row.name
    &&& prompt.text@ == trimmed(row.text@)
    &&& prompt.enabled == row.enabled
    &&& prompt.is_default == row.is_default
    &&& is_stored_as(prompt.created_at, row.created_at@)
}

/// The prompt that a row makes with what its time column holds.
pub fn prompt_of_columns(row: PromptRow, created_at: Column) -> (r: Result<Prompt, &'static str>)
    ensures
        match r {
            Ok(prompt) => {
                &&& !is_blank(row.text@)
                &&& prompt.id.0 == row.id
                &&& prompt.repo_id.0 == row.repo_id
                &&& prompt.name == row.name
                &&& prompt.text@ == trimmed(row.text@)
                &&& prompt.enabled == row.enabled
                &&& prompt.is_default == row.is_default
                &&& Some(prompt.created_at) == created_at.instant()
            },
            Err(e) => if is_blank(row.text@) {
                e@ == "empty prompt text in database"@
            } else {
                created_at.instant() is None && e@ == INVALID_DATE@
            },
        },
{
    let text = match PromptText::new(row.text) {
        Some(text) => text,
        None => {
            return Err("empty prompt text in database");
        },
    };
    match created_at.time() {
        Ok(created_at) => Ok(
            Prompt {
                id: PromptId::new(row.id),
                repo_id: RepoId::new(row.repo_id),
                name: row.name,
                text,
                enabled: row.enabled,
                is_default: row.is_default,
                created_at,
            },
        ),
        Err(e) => Err(e),
    }
}

/// The prompt that a row holds.
pub fn prompt_of_row(row: PromptRow) -> (r: Result<Prompt, &'static str>)
    ensures
        match r {
            Ok(prompt) => prompt_row_error(row) is None && is_prompt_of_row(prompt, row),
            Err(e) => prompt_row_error(row) == Some(e@),
        },
{
    let created_at = read_text(row.created_at.as_str());
    prompt_of_columns(row, created_at)
}

/// The row that holds a prompt. It is read back from it, where its time can be written.
pub fn row_of_prompt(prompt: &Prompt) -> (r: PromptRow)
    ensures
        r.id == prompt.id.0,
        r.repo_id == prompt.repo_id.0,
        r.name == prompt.name,
        r.text@ == prompt.text@,
        r.enabled == prompt.enabled,
        r.is_default == prompt.is_default,
        is_writable(Some(prompt.created_at)) ==> prompt_row_error(r) is None && is_prompt_of_row(
            *prompt,
            r,
        ),
{
    let text = prompt.text.as_str();
    proof {
        trimmed_is_empty_iff_blank(prompt.text@);
    }
    PromptRow {
        id: prompt.id.0,
        repo_id: prompt.repo_id.0,
        name: prompt.name.clone(),
        text: text.to_owned(),
        enabled: prompt.enabled,
        is_default: prompt.is_default,
        created_at: prompt.created_at.to_rfc3339(),
    }
}

// --- What listings hold ---

/// The prompts of a repository are exactly those that were created for it, in the order of the
/// table; where that is asked, those of them that are enabled.
pub proof fn prompts_are_those_of_the_repo(
    prompts: Seq<Prompt>,
    more: Prompt,
    repo_id: RepoId,
    only_enabled: bool,
)
    ensures
        prompts_of(Seq::empty(), repo_id, only_enabled).len() == 0,
        prompts_of(prompts.push(more), repo_id, only_enabled) == if more.repo_id == repo_id && (
        more.enabled || !only_enabled) {
            prompts_of(prompts, repo_id, only_enabled).push(more)
        } else {
            prompts_of(prompts, repo_id, only_enabled)
        },
{
    reveal(Seq::filter);
    assert(prompts.push(more).drop_last() =~= prompts);
    assert(Seq::<Prompt>::empty().filter(
        |p: Prompt| p.repo_id == repo_id && (only_enabled ==> p.enabled),
    ).len() == 0);
}

/// The listing holds all the given prompts and nothing else. A default prompt stands before all
/// others, and of two alike none that was created later stands before one that was created earlier.
pub proof fn prompts_are_listed_in_order(rows: Seq<Prompt>)
    requires
        rows.len() <= usize::MAX,
        forall|k: int| 0 <= k < rows.len() ==> (#[trigger] rows[k]).created_at.secs() > i64::MIN,
    ensures
        ({
            let listed = listing_of(rows);
            &&& listed.len() == rows.len()
            &&& forall|k: int| 0 <= k < listed.len() ==> rows.contains(#[trigger] listed[k])
            &&& forall|m: int| 0 <= m < rows.len() ==> listed.contains(#[trigger] rows[m])
            &&& forall|i: int, j: int|
                #![trigger listed[i], listed[j]]
                0 <= i < j < listed.len() ==> {
                    &&& listed[j].is_default ==> listed[i].is_default
                    &&& listed[i].is_default == listed[j].is_default
                        ==> !listed[j].created_at.before(listed[i].created_at)
                }
        }),
{
    let keys = prompt_keys(rows);
    let order = the_order(keys);
    let listed = listing_of(rows);
    rows_have_an_order(keys);
    assert forall|k: int| 0 <= k < listed.len() implies rows.contains(#[trigger] listed[k]) by {
        assert(order[k] < keys.len());
        assert(listed[k] == rows[order[k] as int]);
    }
    assert forall|m: int| 0 <= m < rows.len() implies listed.contains(#[trigger] rows[m]) by {
        order_lists_each_row_once(keys, order, m);
        let i = choose|i: int| 0 <= i < order.len() && order[i] == m;
        assert(listed[i] == rows[m]);
    }
    assert forall|i: int, j: int|
        #![trigger listed[i], listed[j]]
        0 <= i < j < listed.len() implies {
        &&& listed[j].is_default ==> listed[i].is_default
        &&& listed[i].is_default == listed[j].is_default ==> !listed[j].created_at.before(
            listed[i].created_at,
        )
    } by {
        let a = order[i] as int;
        let b = order[j] as int;
        assert(row_before(keys, a, b));
        assert(a < keys.len() && b < keys.len());
        assert(rows[a].created_at.secs() > i64::MIN);
        assert(rows[b].created_at.secs() > i64::MIN);
        assert(keys[a].skip(1) =~= time_key(rows[a].created_at));
        assert(keys[b].skip(1) =~= time_key(rows[b].created_at));
        keys_are_totally_ordered(time_key(rows[a].created_at), time_key(rows[b].created_at));
        time_keys_follow_time(rows[b].created_at, rows[a].created_at);
        time_keys_follow_time(rows[a].created_at, rows[b].created_at);
    }
}

/// An update sets the name, the text and whether the prompt is enabled, and keeps all else.
pub proof fn update_keeps_the_rest(
    before: Prompt,
    after: Prompt,
    name: Seq<char>,
    text: PromptText,
    enabled: bool,
)
    requires
        is_updated(before, after, name, text, enabled),
    ensures
        after.name@ == name,
        after.text == text,
        after.enabled == enabled,
        after.id == before.id,
        after.repo_id == before.repo_id,
        after.is_default == before.is_default,
        after.created_at == before.created_at,
{
}

/// A prompt as it is created has what was asked for, and is enabled.
pub proof fn created_prompt_is_what_was_asked(
    new_prompt: NewPrompt,
    id: PromptId,
    now: Timestamp,
)
    ensures
        ({
            let prompt = created_prompt(new_prompt, id, now);
            &&& prompt.id == id
            &&& prompt.repo_id == new_prompt.repo_id
            &&& prompt.name == new_prompt.name
            &&& prompt.text == new_prompt.text
            &&& prompt.is_default == new_prompt.is_default
            &&& prompt.enabled
            &&& prompt.created_at.secs() == now.secs()
            &&& prompt.created_at.nanos() == 0
        }),
{
    second_starts_without_nanos(now);
}

/// A row is a prompt exactly if its text is not blank and its time can be read. The prompt has what
/// is stored, with the white space around its text gone.
pub proof fn prompt_is_what_is_stored(prompt: Prompt, row: PromptRow)
    ensures
        prompt_row_error(row) is None <==> trimmed(row.text@).len() > 0 && stored_instant(
            row.created_at@,
        ) is Some,
        is_prompt_of_row(prompt, row) ==> {
            &&& prompt.id == PromptId(row.id)
            &&& prompt.repo_id == RepoId(row.repo_id)
            &&& prompt.name == row.name
            &&& prompt.text@ == trimmed(row.text@)
            &&& prompt.enabled == row.enabled
            &&& prompt.is_default == row.is_default
            &&& stored_instant(row.created_at@) == Some(
                (prompt.created_at.secs(), prompt.created_at.nanos()),
            )
        },
{
    trimmed_is_empty_iff_blank(row.text@);
}

/// A prompt is found under an id exactly if some row has it, and the first such row counts.
pub proof fn first_row_with_the_id_counts(prompts: Seq<Prompt>, id: PromptId, k: int)
    ensures
        has_prompt(prompts, id) <==> exists|i: int|
            #![trigger prompts[i]]
            0 <= i < prompts.len() && prompts[i].id == id,
        is_prompt_at(prompts, id, k) <==> 0 <= k < prompts.len() && prompts[k].id == id
            && forall|i: int| #![trigger prompts[i]] 0 <= i < k ==> prompts[i].id != id,
{
}

} // verus!
