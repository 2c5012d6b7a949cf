//! The head of a skill file: YAML between two lines of three hyphens.

use crate::errors::{AgentError, ErrorView};
use crate::text::{
    after_line_feeds, begins_with, chars_of, concat2, concat3, contains, find, first_at, occurs_in,
    skip_line_feeds, stands_at, starts_with, string_of_range,
};
use vstd::prelude::*;

verus! {

/// The head of a skill file.
#[derive(Debug)]
pub struct SkillFrontmatter {
    pub name: String,
    pub description: String,
    pub license: Option<String>,
    pub compatibility: Option<String>,
    pub allowed_tools: Option<String>,
}

/// The model of the head.
pub struct FrontmatterModel {
    pub name: Seq<char>,
    pub description: Seq<char>,
    pub license: Option<Seq<char>>,
    pub compatibility: Option<Seq<char>>,
    pub allowed_tools: Option<Seq<char>>,
}

/// The text of an optional string.
pub open spec fn option_text(s: Option<String>) -> Option<Seq<char>> {
    match s {
        Some(t) => Some(t@),
        None => None,
    }
}

impl View for SkillFrontmatter {
    type V = FrontmatterModel;

    open spec fn view(&self) -> FrontmatterModel {
        FrontmatterModel {
            name: self.name@,
            description: self.description@,
            license: option_text(self.license),
            compatibility: option_text(self.compatibility),
            allowed_tools: option_text(self.allowed_tools),
        }
    }
}

// ---------------------------------------------------------------------------
// Splitting a skill file
// ---------------------------------------------------------------------------

/// The YAML and the body of a skill file: the file begins with three hyphens, the YAML runs
/// up to the next line that begins with three hyphens, and the body follows, without the line
/// feeds before it.
pub open spec fn split_file(content: Seq<char>) -> Result<(Seq<char>, Seq<char>), ErrorView> {
    if !starts_with(content, "---"@) {
        Err(ErrorView::InvalidInput("SKILL.md must begin with YAML frontmatter (---)"@))
    } else {
        let rest = content.skip(3);
        if !occurs_in(rest, "\n---"@) {
            Err(ErrorView::InvalidInput("SKILL.md frontmatter is not closed with ---"@))
        } else {
            let end = choose|i: int| first_at(rest, "\n---"@, i);
            Ok((rest.take(end), skip_line_feeds(rest.skip(end + 4))))
        }
    }
}

/// There is only one first position.
pub proof fn lemma_first_at_unique(s: Seq<char>, p: Seq<char>, i: int, j: int)
    requires
        first_at(s, p, i),
        first_at(s, p, j),
    ensures
        i == j,
{
    if i < j {
        assert(!crate::text::occurs_at(s, p, i));
    }
    if j < i {
        assert(!crate::text::occurs_at(s, p, j));
    }
}

/// The YAML and the body of a skill file.
pub fn split_skill_file(content: &str) -> (r: Result<(String, String), AgentError>)
    ensures
        match r {
            Ok((yaml, body)) => split_file(content@) == Ok::<(Seq<char>, Seq<char>), ErrorView>(
                (yaml@, body@),
            ),
            Err(e) => split_file(content@) == Err::<(Seq<char>, Seq<char>), ErrorView>(e@),
        },
{
    let v = chars_of(content);
    let fence = chars_of("---");
    if !stands_at(&v, &fence, 0) {
        return Err(
            AgentError::InvalidInput(
                "SKILL.md must begin with YAML frontmatter (---)".to_owned(),
            ),
        );
    }
    proof {
        reveal_strlit("---");
        reveal_strlit("\n---");
    }
    let rest_text = string_of_range(&v, 3, v.len());
    let rest = chars_of(rest_text.as_str());
    let close = chars_of("\n---");
    proof {
        assert(v@.subrange(3, v@.len() as int) =~= content@.skip(3));
    }
    match find(&rest, &close) {
        None => Err(
            AgentError::InvalidInput("SKILL.md frontmatter is not closed with ---".to_owned()),
        ),
        Some(end) => {
            proof {
                let chosen = choose|i: int| first_at(rest@, "\n---"@, i);
                lemma_first_at_unique(rest@, "\n---"@, chosen, end as int);
            }
            let yaml = string_of_range(&rest, 0, end);
            let start = after_line_feeds(&rest, end + 4);
            let body = string_of_range(&rest, start, rest.len());
            proof {
                assert(rest@.subrange(0, end as int) =~= rest@.take(end as int));
                assert(rest@.subrange(start as int, rest@.len() as int) =~= rest@.skip(
                    start as int,
                ));
            }
            Ok((yaml, body))
        },
    }
}

/// `head` is what reading this YAML gave.
pub open spec fn parsed<F: FnOnce(&str) -> Result<SkillFrontmatter, String>>(
    parse: F,
    yaml: Seq<char>,
    head: Result<SkillFrontmatter, String>,
) -> bool {
    exists|y: &str| y@ == yaml && #[trigger] call_ensures(parse, (y,), head)
}

/// The error for a head that could not be read.
pub open spec fn unreadable(m: Seq<char>) -> ErrorView {
    ErrorView::InvalidInput("Invalid SKILL.md frontmatter: "@ + m)
}

/// `r` is the head and the body of a skill file, `head` being what reading the head gave.
pub open spec fn headed(
    head: Result<SkillFrontmatter, String>,
    body: Seq<char>,
    r: Result<(SkillFrontmatter, String), AgentError>,
) -> bool {
    match head {
        Ok(f) => r matches Ok((g, b)) && g == f && b@ == body,
        Err(m) => r matches Err(e) && e@ == unreadable(m@),
    }
}

/// The head and the body of a skill file. `head` is what reading the head gave.
pub fn with_body(head: Result<SkillFrontmatter, String>, body: String) -> (r: Result<
    (SkillFrontmatter, String),
    AgentError,
>)
    ensures
        headed(head, body@, r),
{
    match head {
        Ok(f) => Ok((f, body)),
        Err(m) => Err(
            AgentError::InvalidInput(concat2("Invalid SKILL.md frontmatter: ", m.as_str())),
        ),
    }
}

/// The head and the body of a skill file. `parse` reads the YAML of the head.
pub fn split_frontmatter<F: FnOnce(&str) -> Result<SkillFrontmatter, String>>(
    content: &str,
    parse: F,
) -> (r: Result<(SkillFrontmatter, String), AgentError>)
    requires
        forall|y: &str| call_requires(parse, (y,)),
    ensures
        match split_file(content@) {
            Err(e) => r matches Err(x) && x@ == e,
            Ok((yaml, body)) => exists|head: Result<SkillFrontmatter, String>| #[trigger]
                parsed(parse, yaml, head) && headed(head, body, r),
        },
{
    match split_skill_file(content) {
        Ok((yaml, body)) => {
            let text = yaml.as_str();
            let head = parse(text);
            proof {
                assert(call_ensures(parse, (text,), head));
                assert(parsed(parse, split_file(content@)->Ok_0.0, head));
            }
            with_body(head, body)
        },
        Err(e) => Err(e),
    }
}

// ---------------------------------------------------------------------------
// Building a skill into a program
// ---------------------------------------------------------------------------

/// What is wrong with a skill file that is to be built into a program, as far as its shape
/// shows: its beginning, or its missing end.
pub open spec fn shape_error(path: Seq<char>, content: Seq<char>) -> Option<Seq<char>> {
    if !starts_with(content, "---"@) {
        Some("include_skill!: "@ + path + " must begin with YAML frontmatter (---)"@)
    } else if !occurs_in(content, "\n---"@) {
        Some("include_skill!: "@ + path + " frontmatter is not closed with ---"@)
    } else {
        None
    }
}

/// Checks the shape of a skill file that is to be built into a program.
pub fn check_shape(path: &str, content: &str) -> (r: Result<(), String>)
    ensures
        match r {
            Ok(_) => shape_error(path@, content@) is None,
            Err(m) => shape_error(path@, content@) == Some(m@),
        },
{
    if !begins_with(content, "---") {
        return Err(
            concat3("include_skill!: ", path, " must begin with YAML frontmatter (---)"),
        );
    }
    if !contains(content, "\n---") {
        return Err(concat3("include_skill!: ", path, " frontmatter is not closed with ---"));
    }
    Ok(())
}

/// A skill file whose shape passes the check can be split.
pub proof fn good_shape_splits(path: Seq<char>, content: Seq<char>)
    requires
        shape_error(path, content) is None,
    ensures
        split_file(content) is Ok,
{
    reveal_strlit("---");
    reveal_strlit("\n---");
    let i = choose|i: int| crate::text::occurs_at(content, "\n---"@, i);
    let p = "\n---"@;
    let rest = content.skip(3);
    assert(content.subrange(0, 3)[0] == '-');
    assert(content.subrange(0, 3)[1] == '-');
    assert(content.subrange(0, 3)[2] == '-');
    assert(content.subrange(i, i + 4)[0] == '\n');
    assert(i >= 3);
    assert(rest.subrange(i - 3, i + 1) =~= content.subrange(i, i + 4));
    assert(crate::text::occurs_at(rest, p, i - 3));
}

} // verus!
