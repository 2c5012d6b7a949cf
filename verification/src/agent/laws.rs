//! Laws of skills and of agents that are put together.

use crate::agent::agentskill::{
    cannot_read, capitalized, checked_names_are_valid, description_error, display_name, gives,
    head_error, include_error, name_error, startup_error, validate_skill_name, AgentSkillDef,
};
use crate::agent::builder::{versioned, AgentBuilder, AgentDefinition};
use crate::agent::frontmatter::{
    headed, lemma_first_at_unique, shape_error, split_file, FrontmatterModel, SkillFrontmatter,
};
use crate::agent::llm_skill::{one_text, work_status_to_input_result, work_status_to_request_result};
use crate::agent::skill::{OnInputResult, OnRequestResult, RegisteredSkill, WorkStatus};
use crate::errors::{AgentError, ErrorView};
use crate::json::JsonValue;
use crate::models::PartModel;
use crate::text::{
    first_at, is_white_space, occurs_at, occurs_in, only_line_feeds_are_skipped,
    pieces_go_on_behind_a_separator, split_on, starts_with, texts, words,
};
use vstd::prelude::*;

verus! {

// ---------------------------------------------------------------------------
// Names and descriptions
// ---------------------------------------------------------------------------

/// A name is refused for the first of these reasons that holds: it is empty or has more than 64
/// characters; it begins or ends with a hyphen; it has two hyphens in a row; it has a character
/// that is no lower-case letter, digit or hyphen. Otherwise it is accepted.
pub proof fn names_are_refused_for_a_reason(name: Seq<char>, i: int)
    ensures
        name.len() == 0 || name.len() > 64 ==> name_error(name) == Some(
            "Skill name must be 1–64 characters"@,
        ),
        1 <= name.len() <= 64 && (name[0] == '-' || name.last() == '-') ==> name_error(name)
            == Some("Skill name must not start or end with a hyphen"@),
        1 <= name.len() <= 64 && name[0] != '-' && name.last() != '-' && 0 < i < name.len()
            && name[i - 1] == '-' && name[i] == '-' ==> name_error(name) == Some(
            "Skill name must not contain consecutive hyphens (--)"@,
        ),
        1 <= name.len() <= 64 && 0 <= i < name.len() && !('a' <= name[i] <= 'z') && !('0' <= name[i]
            <= '9') && name[i] != '-' ==> name_error(name) is Some,
        1 <= name.len() <= 64 && name[0] != '-' && name.last() != '-' && 0 <= i < name.len() && !(
        'a' <= name[i] <= 'z') && !('0' <= name[i] <= '9') && name[i] != '-' && (forall|j: int|
            0 < j < name.len() ==> name[j - 1] != '-' || #[trigger] name[j] != '-') ==> name_error(
            name,
        ) == Some(
            "Skill name may only contain lowercase letters (a-z), digits (0-9), and hyphens (-)"@,
        ),
        1 <= name.len() <= 64 && name[0] != '-' && name.last() != '-' && (forall|j: int|
            0 < j < name.len() ==> name[j - 1] != '-' || #[trigger] name[j] != '-') && (forall|
            j: int,
        |
            0 <= j < name.len() ==> 'a' <= #[trigger] name[j] <= 'z' || '0' <= name[j] <= '9'
                || name[j] == '-') ==> name_error(name) is None,
{
    reveal_strlit("--");
    let p = "--"@;
    if 0 < i < name.len() && name[i - 1] == '-' && name[i] == '-' {
        assert(name.subrange(i - 1, i + 1) =~= p);
        assert(occurs_at(name, p, i - 1));
    }
    if occurs_in(name, p) {
        let k = choose|k: int| occurs_at(name, p, k);
        assert(name.subrange(k, k + 2)[0] == '-');
        assert(name.subrange(k, k + 2)[1] == '-');
        assert(name[(k + 1) - 1] == '-' && name[k + 1] == '-');
    }
}

/// A description is accepted exactly where it has 1 to 1024 characters.
pub proof fn descriptions_have_a_length(description: Seq<char>)
    ensures
        1 <= description.len() <= 1024 <==> description_error(description) is None,
        description_error(description) is Some ==> description_error(description) == Some(
            "Skill description must be 1–1024 characters"@,
        ),
{
}

/// A word is shown with its first letter in upper case and the rest as it is.
pub proof fn words_are_capitalized(c: char, rest: Seq<char>)
    requires
        c <= '\u{7f}',
    ensures
        capitalized(Seq::empty()) == Seq::<char>::empty(),
        'a' <= c <= 'z' ==> capitalized(seq![c] + rest) == seq![(c as u32 - 32) as char] + rest,
        !('a' <= c <= 'z') ==> capitalized(seq![c] + rest) == seq![c] + rest,
{
    assert((seq![c] + rest).skip(1) =~= rest);
}

/// The name for people has each word behind those before it, with a space between.
pub proof fn names_for_people_show_each_word(id: Seq<char>, word: Seq<char>)
    requires
        forall|i: int| 0 <= i < word.len() ==> #[trigger] word[i] != '-',
    ensures
        display_name(word) == capitalized(word),
        display_name(id.push('-') + word) == display_name(id) + " "@ + capitalized(word),
{
    let caps = |w: Seq<char>| capitalized(w);
    pieces_go_on_behind_a_separator(id, '-', word);
    crate::text::lemma_split_some(id, crate::text::only('-'));
    let p = split_on(id, '-');
    assert(p.push(word).map_values(caps) =~= p.map_values(caps).push(capitalized(word)));
    assert(p.map_values(caps).push(capitalized(word)).drop_last() =~= p.map_values(caps));
    assert(seq![word].map_values(caps) =~= seq![capitalized(word)]);
}

// ---------------------------------------------------------------------------
// Skill files
// ---------------------------------------------------------------------------

/// A skill file is split at its fences: the head is what stands between the three hyphens at
/// its beginning and the first line that begins with three hyphens, the body what stands behind
/// that, without the line feeds before it.
pub proof fn files_are_split_at_their_fences(
    head: Seq<char>,
    feeds: Seq<char>,
    body: Seq<char>,
)
    requires
        forall|i: int| 0 <= i < feeds.len() ==> #[trigger] feeds[i] == '\n',
        body.len() > 0 ==> body[0] != '\n',
        forall|i: int|
            0 <= i < head.len() ==> !occurs_at(
                head + "\n---"@ + feeds + body,
                "\n---"@,
                i,
            ),
    ensures
        split_file("---"@ + (head + "\n---"@ + feeds + body)) == Ok::<
            (Seq<char>, Seq<char>),
            ErrorView,
        >((head, body)),
{
    reveal_strlit("---");
    reveal_strlit("\n---");
    let fence = "\n---"@;
    let rest = head + fence + feeds + body;
    let content = "---"@ + rest;
    assert(content.subrange(0, 3) =~= "---"@);
    assert(content.skip(3) =~= rest);
    let n = head.len() as int;
    assert(rest.subrange(n, n + 4) =~= fence);
    assert(occurs_at(rest, fence, n));
    assert(first_at(rest, fence, n));
    let end = choose|i: int| first_at(rest, fence, i);
    lemma_first_at_unique(rest, fence, end, n);
    assert(rest.take(n) =~= head);
    assert(rest.skip(n + 4) =~= feeds + body);
    only_line_feeds_are_skipped(feeds, body);
}

/// A skill file that does not begin with three hyphens is refused, and so is one without a
/// later line that begins with them.
pub proof fn files_without_fences_are_refused(content: Seq<char>, rest: Seq<char>)
    ensures
        !starts_with(content, "---"@) ==> split_file(content) == Err::<
            (Seq<char>, Seq<char>),
            ErrorView,
        >(ErrorView::InvalidInput("SKILL.md must begin with YAML frontmatter (---)"@)),
        content == "---"@ + rest && !occurs_in(rest, "\n---"@) ==> split_file(content) == Err::<
            (Seq<char>, Seq<char>),
            ErrorView,
        >(ErrorView::InvalidInput("SKILL.md frontmatter is not closed with ---"@)),
{
    reveal_strlit("---");
    if content == "---"@ + rest {
        assert(content.subrange(0, 3) =~= "---"@);
        assert(content.skip(3) =~= rest);
    }
}

/// A head that cannot be read is refused with what reading it gave; one that can be read comes
/// with the body.
pub proof fn heads_come_with_their_body(
    head: Result<SkillFrontmatter, String>,
    body: Seq<char>,
    r: Result<(SkillFrontmatter, String), AgentError>,
)
    requires
        headed(head, body, r),
    ensures
        head is Ok <==> r is Ok,
        r matches Ok((f, b)) ==> head == Ok::<SkillFrontmatter, String>(f) && b@ == body,
        head matches Err(m) ==> (r matches Err(e) && e@ == ErrorView::InvalidInput(
            "Invalid SKILL.md frontmatter: "@ + m@,
        )),
{
}

/// The head of a skill file is refused where it names another directory than the one it is in,
/// then for its name, then for its description; in a directory without a name it may have any
/// valid name.
pub proof fn heads_must_fit_their_directory(f: FrontmatterModel, dir_name: Seq<char>)
    ensures
        dir_name.len() > 0 && f.name != dir_name ==> head_error(f, dir_name) == Some(
            ErrorView::InvalidInput(
                "AgentSkill `name` field '"@ + f.name + "' must match the directory name '"@
                    + dir_name + "'"@,
            ),
        ),
        (dir_name.len() == 0 || f.name == dir_name) && name_error(f.name) is Some ==> head_error(
            f,
            dir_name,
        ) == Some(ErrorView::InvalidInput(name_error(f.name)->Some_0)),
        (dir_name.len() == 0 || f.name == dir_name) && name_error(f.name) is None
            && description_error(f.description) is Some ==> head_error(f, dir_name) == Some(
            ErrorView::InvalidInput(description_error(f.description)->Some_0),
        ),
        (dir_name.len() == 0 || f.name == dir_name) && name_error(f.name) is None
            && description_error(f.description) is None ==> head_error(f, dir_name) is None,
{
}

/// A skill that a file gives is named and described by the head of the file, is instructed by
/// its body, takes and gives plain text, and may use the tools that the head allows, one to a
/// word.
pub proof fn skills_are_as_their_file_says(
    f: SkillFrontmatter,
    body: Seq<char>,
    dir_name: Seq<char>,
    def: AgentSkillDef,
)
    requires
        gives(Ok(f), body, dir_name, Ok(def)),
    ensures
        head_error(f@, dir_name) is None,
        def.instructions@ == body,
        def.metadata.id@ == f.name@,
        def.metadata.name@ == display_name(f.name@),
        def.metadata.description@ == f.description@,
        def.metadata.instructions matches Some(i) && i@ == body,
        f.license matches Some(l) ==> (def.metadata.license matches Some(k) && k@ == l@),
        f.license is None ==> def.metadata.license is None,
        f.compatibility matches Some(l) ==> (def.metadata.compatibility matches Some(k) && k@
            == l@),
        f.compatibility is None ==> def.metadata.compatibility is None,
        f.allowed_tools matches Some(t) ==> texts(def.metadata.allowed_tools@) == words(t@),
        f.allowed_tools is None ==> def.metadata.allowed_tools@.len() == 0,
        def.metadata.tags@.len() == 0,
        def.metadata.examples@.len() == 0,
        texts(def.metadata.input_modes@) == seq!["text/plain"@],
        texts(def.metadata.output_modes@) == seq!["text/plain"@],
{
    assert(def.is_from(f@, body));
    assert(texts(def.metadata.allowed_tools@).len() == def.metadata.allowed_tools@.len());
    if f.allowed_tools is None {
        crate::text::words_stand_in_order(Seq::empty(), ' ', Seq::empty());
    }
}

/// A file gives no skill where its head cannot be read or is refused, and says why.
pub proof fn refused_files_give_no_skill(
    head: Result<SkillFrontmatter, String>,
    body: Seq<char>,
    dir_name: Seq<char>,
    r: Result<AgentSkillDef, AgentError>,
)
    requires
        gives(head, body, dir_name, r),
    ensures
        head matches Err(m) ==> (r matches Err(e) && e@ == ErrorView::InvalidInput(
            "Invalid SKILL.md frontmatter: "@ + m@,
        )),
        head matches Ok(f) ==> (head_error(f@, dir_name) matches Some(x) ==> (r matches Err(e)
            && e@ == x)),
        head matches Ok(f) ==> (head_error(f@, dir_name) is None ==> r is Ok),
{
}

/// What is said of files that cannot be read or built in.
pub proof fn files_that_cannot_be_used_are_named(
    path: Seq<char>,
    content: Seq<char>,
    m: String,
    e: ErrorView,
)
    ensures
        cannot_read(path, m@) == ErrorView::InvalidInput("Cannot read "@ + path + ": "@ + m@),
        include_error(path, Err(m)) == Some("include_skill!: cannot read "@ + path + ": "@ + m@),
        !starts_with(content, "---"@) ==> shape_error(path, content) == Some(
            "include_skill!: "@ + path + " must begin with YAML frontmatter (---)"@,
        ),
        starts_with(content, "---"@) && !occurs_in(content, "\n---"@) ==> shape_error(path, content)
            == Some("include_skill!: "@ + path + " frontmatter is not closed with ---"@),
        starts_with(content, "---"@) && occurs_in(content, "\n---"@) ==> shape_error(
            path,
            content,
        ) is None,
        startup_error(path, e) == "include_skill!(\""@ + path + "\") — invalid SKILL.md: "@
            + e.text(),
{
}

/// A file that was read is judged by its shape.
pub proof fn read_files_are_judged_by_their_shape(file: Seq<char>, content: String)
    ensures
        include_error(file, Ok(content)) == shape_error(file, content@),
{
}

/// A text is said as one part.
pub proof fn texts_are_said_as_one_part(s: Seq<char>)
    ensures
        one_text(s).len() == 1,
        one_text(s)[0] == PartModel::Text(s),
{
}

// ---------------------------------------------------------------------------
// Agents
// ---------------------------------------------------------------------------

/// Each setting of an agent sets that and leaves the others alone.
pub proof fn settings_leave_each_other_alone<H>(b: AgentBuilder<H>, s: String)
    ensures
        b.named(s).inner == (AgentDefinition {
            name: s,
            version: b.inner.version,
            description: b.inner.description,
            dispatcher_prompt: b.inner.dispatcher_prompt,
            skills: b.inner.skills,
        }),
        b.named(s).pending_skill_defs == b.pending_skill_defs,
        b.at_version(s).inner == (AgentDefinition {
            name: b.inner.name,
            version: s,
            description: b.inner.description,
            dispatcher_prompt: b.inner.dispatcher_prompt,
            skills: b.inner.skills,
        }),
        b.at_version(s).pending_skill_defs == b.pending_skill_defs,
        b.described(s).inner == (AgentDefinition {
            name: b.inner.name,
            version: b.inner.version,
            description: Some(s),
            dispatcher_prompt: b.inner.dispatcher_prompt,
            skills: b.inner.skills,
        }),
        b.described(s).pending_skill_defs == b.pending_skill_defs,
        b.prompted(s).inner == (AgentDefinition {
            name: b.inner.name,
            version: b.inner.version,
            description: b.inner.description,
            dispatcher_prompt: Some(s),
            skills: b.inner.skills,
        }),
        b.prompted(s).pending_skill_defs == b.pending_skill_defs,
{
}

/// A skill that is added comes behind those that are there, with what it tells of itself and
/// with what runs it, and everything else stays as it is.
pub proof fn skills_are_added_behind_the_others<H, T: RegisteredSkill<H>>(
    b: AgentBuilder<H>,
    skill: T,
    r: AgentBuilder<H>,
    i: int,
)
    requires
        b.with_more(skill, r),
    ensures
        r.inner.skills@.len() == b.inner.skills@.len() + 1,
        0 <= i < b.inner.skills@.len() ==> r.inner.skills@[i] == b.inner.skills@[i],
        call_ensures(T::metadata, (), r.inner.skills@.last().metadata),
        call_ensures(T::into_handler, (skill,), r.inner.skills@.last().handler),
        r.inner.name == b.inner.name,
        r.inner.version == b.inner.version,
        r.inner.description == b.inner.description,
        r.inner.dispatcher_prompt == b.inner.dispatcher_prompt,
        r.pending_skill_defs == b.pending_skill_defs,
{
    if 0 <= i < b.inner.skills@.len() {
        assert(r.inner.skills@.drop_last()[i] == r.inner.skills@[i]);
    }
}

/// A skill that a file gives waits behind those that are there, and a file that gives none
/// leaves its error.
pub proof fn skills_of_files_wait_in_order<H>(
    b: AgentBuilder<H>,
    def: Result<AgentSkillDef, AgentError>,
    r: Result<AgentBuilder<H>, AgentError>,
)
    requires
        b.with_read(def, r),
    ensures
        def matches Err(e) ==> r == Err::<AgentBuilder<H>, AgentError>(e),
        def matches Ok(d) ==> (r matches Ok(after) && after.inner == b.inner
            && after.pending_skill_defs@ == b.pending_skill_defs@ + seq![d]),
{
    match (def, r) {
        (Ok(d), Ok(after)) => {
            assert(after.pending_skill_defs@ =~= b.pending_skill_defs@ + seq![d]);
        },
        _ => {},
    }
}

/// An agent is built as it was put together; only a version without anything to be seen in it
/// is replaced, by 0.0.1.
pub proof fn agents_are_built_as_put_together<H>(
    before: AgentDefinition<H>,
    after: AgentDefinition<H>,
    i: int,
)
    requires
        versioned(before, after),
    ensures
        after.name == before.name,
        after.description == before.description,
        after.dispatcher_prompt == before.dispatcher_prompt,
        after.skills == before.skills,
        0 <= i < before.version@.len() && !is_white_space(before.version@[i]) ==> after.version@
            == before.version@,
        before.version@.len() == 0 ==> after.version@ == "0.0.1"@,
        (forall|j: int| 0 <= j < before.version@.len() ==> #[trigger] before.version@[j] == ' ')
            ==> after.version@ == "0.0.1"@,
{
}

/// How far the model has come decides the answer: what is complete is completed, with what the
/// model said; what needs input asks for it and keeps the conversation; what failed has failed.
pub proof fn work_decides_the_answer(
    status: WorkStatus,
    thread: JsonValue,
    answer: OnRequestResult,
    reply: OnInputResult,
)
    requires
        call_ensures(work_status_to_request_result, (status, thread), answer),
        call_ensures(work_status_to_input_result, (status, thread), reply),
    ensures
        status is Complete <==> answer is Completed,
        status is NeedsInput <==> answer is InputRequired,
        status is Failed <==> answer is Failed,
        status is Complete <==> reply is Completed,
        status is NeedsInput <==> reply is InputRequired,
        status is Failed <==> reply is Failed,
        status matches WorkStatus::NeedsInput { message } ==> (
        answer matches OnRequestResult::InputRequired { message: m, slot } && m@ == seq![
            PartModel::Text(message@),
        ] && slot.value == thread),
        status matches WorkStatus::NeedsInput { message } ==> (
        reply matches OnInputResult::InputRequired { message: m, slot } && m@ == seq![
            PartModel::Text(message@),
        ] && slot.value == thread),
        status matches WorkStatus::Failed { reason } ==> (answer matches OnRequestResult::Failed {
            error,
        } && error@ == seq![PartModel::Text(reason@)]),
        status matches WorkStatus::Complete { message } ==> (
        answer matches OnRequestResult::Completed { message: Some(m), artifacts } && m@ == seq![
            PartModel::Text(message@),
        ] && artifacts@.len() == 0),
{
}

/// A name is accepted by the check exactly where it is 1 to 64 lower-case letters, digits and
/// single hyphens within.
pub proof fn the_check_accepts_valid_names(name: &str, r: Result<(), AgentError>)
    requires
        call_ensures(validate_skill_name, (name,), r),
    ensures
        r is Ok <==> {
            &&& 1 <= name@.len() <= 64
            &&& forall|i: int|
                0 <= i < name@.len() ==> 'a' <= #[trigger] name@[i] <= 'z' || '0' <= name@[i] <= '9'
                    || (name@[i] == '-' && 0 < i < name@.len() - 1 && name@[i - 1] != '-')
        },
{
    let n = name@;
    checked_names_are_valid(n);
    if r is Ok {
        assert forall|i: int| 0 <= i < n.len() implies 'a' <= #[trigger] n[i] <= 'z' || '0' <= n[i]
            <= '9' || (n[i] == '-' && 0 < i < n.len() - 1 && n[i - 1] != '-') by {
            names_are_refused_for_a_reason(n, i);
        }
    } else if 1 <= n.len() <= 64 && (forall|i: int|
        0 <= i < n.len() ==> 'a' <= #[trigger] n[i] <= 'z' || '0' <= n[i] <= '9' || (n[i] == '-'
            && 0 < i < n.len() - 1 && n[i - 1] != '-')) {
        assert forall|j: int| 0 < j < n.len() implies n[j - 1] != '-' || #[trigger] n[j] != '-' by {}
        assert(n[0] != '-');
        assert(n[n.len() - 1] != '-');
        names_are_refused_for_a_reason(n, 0);
    }
}

} // verus!
