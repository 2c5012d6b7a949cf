//! Skills given by a file.

use crate::agent::builder::SkillRegistration;
use crate::agent::frontmatter::{
    check_shape, good_shape_splits, option_text, parsed, shape_error, split_file,
    split_frontmatter, unreadable, FrontmatterModel, SkillFrontmatter,
};
use crate::agent::llm_skill::LlmSkillHandler;
use crate::agent::skill::SkillMetadata;
use crate::errors::{AgentError, ErrorView};
use crate::text::{
    ascii_lower, ascii_upper, chars_of, concat3, concat5, find, is_empty_text, join, joined,
    lemma_split_some, occurs_at, occurs_in, only, pieces_on, same_text, split_on, starts_with, string_of_range,
    texts, words, words_of,
};
use std::sync::Arc;
use vstd::prelude::*;

verus! {

/// A skill that is given by a file: its metadata and its instructions.
#[derive(Debug)]
pub struct AgentSkillDef {
    pub metadata: Arc<SkillMetadata>,
    pub instructions: String,
}

// ---------------------------------------------------------------------------
// Names and descriptions
// ---------------------------------------------------------------------------

/// A character that may stand in the name of a skill.
pub open spec fn is_name_char(c: char) -> bool {
    'a' <= c <= 'z' || '0' <= c <= '9' || c == '-'
}

/// The name of a skill: 1 to 64 lower-case letters, digits and hyphens, with a hyphen neither
/// first nor last nor twice in a row.
pub open spec fn valid_name(name: Seq<char>) -> bool {
    &&& 1 <= name.len() <= 64
    &&& forall|i: int| 0 <= i < name.len() ==> is_name_char(#[trigger] name[i])
    &&& name[0] != '-'
    &&& name.last() != '-'
    &&& forall|i: int, j: int|
        0 <= i && j == i + 1 && j < name.len() ==> !(#[trigger] name[i] == '-' && #[trigger] name[j]
            == '-')
}

/// What is wrong with the name of a skill.
pub open spec fn name_error(name: Seq<char>) -> Option<Seq<char>> {
    if name.len() == 0 || name.len() > 64 {
        Some("Skill name must be 1–64 characters"@)
    } else if name[0] == '-' || name.last() == '-' {
        Some("Skill name must not start or end with a hyphen"@)
    } else if occurs_in(name, "--"@) {
        Some("Skill name must not contain consecutive hyphens (--)"@)
    } else if !(forall|i: int| 0 <= i < name.len() ==> is_name_char(#[trigger] name[i])) {
        Some(
            "Skill name may only contain lowercase letters (a-z), digits (0-9), and hyphens (-)"@,
        )
    } else {
        None
    }
}

/// What is wrong with the description of a skill.
pub open spec fn description_error(description: Seq<char>) -> Option<Seq<char>> {
    if description.len() == 0 || description.len() > 1024 {
        Some("Skill description must be 1–1024 characters"@)
    } else {
        None
    }
}

/// Checks the name of a skill.
pub fn validate_skill_name(name: &str) -> (r: Result<(), AgentError>)
    ensures
        match r {
            Ok(_) => name_error(name@) is None,
            Err(e) => name_error(name@) is Some && e@ == ErrorView::InvalidInput(
                name_error(name@)->Some_0,
            ),
        },
{
    let v = chars_of(name);
    if v.len() == 0 || v.len() > 64 {
        return Err(AgentError::InvalidInput("Skill name must be 1–64 characters".to_owned()));
    }
    if v[0] == '-' || v[v.len() - 1] == '-' {
        return Err(
            AgentError::InvalidInput("Skill name must not start or end with a hyphen".to_owned()),
        );
    }
    let double = chars_of("--");
    if find(&v, &double).is_some() {
        return Err(
            AgentError::InvalidInput(
                "Skill name must not contain consecutive hyphens (--)".to_owned(),
            ),
        );
    }
    let mut i: usize = 0;
    while i < v.len()
        invariant
            i <= v.len(),
            v@ == name@,
            v@.len() > 0,
            v@.len() <= 64,
            name@[0] != '-' && name@.last() != '-',
            !occurs_in(name@, "--"@),
            forall|j: int| 0 <= j < i ==> is_name_char(#[trigger] name@[j]),
        decreases v.len() - i,
    {
        let c = v[i];
        if !(('a' <= c && c <= 'z') || ('0' <= c && c <= '9') || c == '-') {
            proof {
                assert(!is_name_char(name@[i as int]));
            }
            return Err(
                AgentError::InvalidInput(
                    "Skill name may only contain lowercase letters (a-z), digits (0-9), and hyphens (-)".to_owned(),
                ),
            );
        }
        i = i + 1;
    }
    Ok(())
}

/// Checks the description of a skill.
pub fn validate_description(desc: &str) -> (r: Result<(), AgentError>)
    ensures
        match r {
            Ok(_) => description_error(desc@) is None,
            Err(e) => description_error(desc@) is Some && e@ == ErrorView::InvalidInput(
                description_error(desc@)->Some_0,
            ),
        },
{
    let v = chars_of(desc);
    if v.len() == 0 || v.len() > 1024 {
        return Err(
            AgentError::InvalidInput("Skill description must be 1–1024 characters".to_owned()),
        );
    }
    Ok(())
}

/// What `char::to_uppercase` makes of a character beyond ASCII.
pub uninterp spec fn uppercase_of(c: char) -> Seq<char>;

/// A character in upper case: of the ASCII characters only `a` to `z` change, others as
/// `char::to_uppercase` has it.
pub open spec fn upper_case(c: char) -> Seq<char> {
    if c <= '\u{7f}' {
        seq![ascii_upper(c)]
    } else {
        uppercase_of(c)
    }
}

/// `char::to_uppercase`: the Unicode upper case of a character, which may be several
/// characters; of the ASCII characters only `a` to `z` change.
#[verifier::external_body]
fn uppercase(c: char) -> (r: String)
    ensures
        c > '\u{7f}' ==> r@ == uppercase_of(c),
        r@ == upper_case(c),
{
    c.to_uppercase().to_string()
}

/// A word with its first letter in upper case.
pub open spec fn capitalized(word: Seq<char>) -> Seq<char> {
    if word.len() == 0 {
        Seq::empty()
    } else {
        upper_case(word[0]) + word.skip(1)
    }
}

/// The name of a skill for people: its words, each with its first letter in upper case.
pub open spec fn display_name(id: Seq<char>) -> Seq<char> {
    join(split_on(id, '-').map_values(|w: Seq<char>| capitalized(w)), " "@)
}

fn capitalize(word: &str) -> (r: String)
    ensures
        r@ == capitalized(word@),
{
    let v = chars_of(word);
    if v.len() == 0 {
        let s = String::new();
        proof {
            assert(s@ =~= Seq::<char>::empty());
        }
        return s;
    }
    let mut s = uppercase(v[0]);
    let rest = string_of_range(&v, 1, v.len());
    s.append(rest.as_str());
    proof {
        assert(v@.subrange(1, v@.len() as int) =~= word@.skip(1));
    }
    s
}

/// The name of a skill for people.
pub fn to_display_name(id: &str) -> (r: String)
    ensures
        r@ == display_name(id@),
{
    let parts = pieces_on(id, '-');
    let mut out: Vec<String> = Vec::new();
    let mut i: usize = 0;
    let ghost expected = split_on(id@, '-').map_values(|w: Seq<char>| capitalized(w));
    while i < parts.len()
        invariant
            i <= parts.len(),
            out.len() == i,
            texts(parts@) == split_on(id@, '-'),
            expected == split_on(id@, '-').map_values(|w: Seq<char>| capitalized(w)),
            forall|j: int| 0 <= j < i ==> (#[trigger] out@[j])@ == expected[j],
        decreases parts.len() - i,
    {
        proof {
            assert(texts(parts@)[i as int] == parts@[i as int]@);
        }
        out.push(capitalize(parts[i].as_str()));
        i = i + 1;
    }
    proof {
        assert(texts(parts@).len() == parts@.len());
        assert(texts(out@) =~= expected);
    }
    joined(&out, " ")
}

// ---------------------------------------------------------------------------
// Reading a skill
// ---------------------------------------------------------------------------

/// The error for a file in a directory with another name.
pub open spec fn mismatch(name: Seq<char>, dir_name: Seq<char>) -> ErrorView {
    ErrorView::InvalidInput(
        "AgentSkill `name` field '"@ + name + "' must match the directory name '"@ + dir_name
            + "'"@,
    )
}

/// What is wrong with the head of a skill file in a directory; a directory without a name is
/// not compared.
pub open spec fn head_error(f: FrontmatterModel, dir_name: Seq<char>) -> Option<ErrorView> {
    if dir_name.len() > 0 && f.name != dir_name {
        Some(mismatch(f.name, dir_name))
    } else if name_error(f.name) is Some {
        Some(ErrorView::InvalidInput(name_error(f.name)->Some_0))
    } else if description_error(f.description) is Some {
        Some(ErrorView::InvalidInput(description_error(f.description)->Some_0))
    } else {
        None
    }
}

/// The text of an optional field, or the empty text.
pub open spec fn text_or_none(t: Option<Seq<char>>) -> Seq<char> {
    match t {
        Some(t) => t,
        None => Seq::empty(),
    }
}

/// The error for a file that could not be read.
pub open spec fn cannot_read(path: Seq<char>, m: Seq<char>) -> ErrorView {
    ErrorView::InvalidInput("Cannot read "@ + path + ": "@ + m)
}

/// `r` is the skill that a file in a directory gives, `head` being what reading its head gave.
pub open spec fn gives(
    head: Result<SkillFrontmatter, String>,
    body: Seq<char>,
    dir_name: Seq<char>,
    r: Result<AgentSkillDef, AgentError>,
) -> bool {
    match head {
        Err(m) => r matches Err(e) && e@ == unreadable(m@),
        Ok(f) => match r {
            Ok(def) => head_error(f@, dir_name) is None && def.is_from(f@, body),
            Err(e) => head_error(f@, dir_name) == Some(e@),
        },
    }
}

/// `r` is the skill that the text of a file in a directory gives, whose head `parse` reads.
pub open spec fn file_gives<F: FnOnce(&str) -> Result<SkillFrontmatter, String>>(
    content: Seq<char>,
    dir_name: Seq<char>,
    parse: F,
    r: Result<AgentSkillDef, AgentError>,
) -> bool {
    match split_file(content) {
        Err(e) => r matches Err(x) && x@ == e,
        Ok((yaml, body)) => exists|head: Result<SkillFrontmatter, String>| #[trigger]
            parsed(parse, yaml, head) && gives(head, body, dir_name, r),
    }
}

impl AgentSkillDef {
    /// The skill is the one that the head and the body of a file give.
    pub open spec fn is_from(self, f: FrontmatterModel, body: Seq<char>) -> bool {
        &&& self.instructions@ == body
        &&& self.metadata.id@ == f.name
        &&& self.metadata.name@ == display_name(f.name)
        &&& self.metadata.description@ == f.description
        &&& self.metadata.tags@.len() == 0
        &&& self.metadata.examples@.len() == 0
        &&& texts(self.metadata.input_modes@) == seq!["text/plain"@]
        &&& texts(self.metadata.output_modes@) == seq!["text/plain"@]
        &&& option_text(self.metadata.instructions) == Some(body)
        &&& option_text(self.metadata.license) == f.license
        &&& option_text(self.metadata.compatibility) == f.compatibility
        &&& texts(self.metadata.allowed_tools@) == words(text_or_none(f.allowed_tools))
    }

    /// The skill that the head and the body of a file in a directory give.
    pub fn from_parts(frontmatter: SkillFrontmatter, body: String, dir_name: &str) -> (r: Result<
        AgentSkillDef,
        AgentError,
    >)
        ensures
            match r {
                Ok(def) => head_error(frontmatter@, dir_name@) is None && def.is_from(
                    frontmatter@,
                    body@,
                ),
                Err(e) => head_error(frontmatter@, dir_name@) == Some(e@),
            },
    {
        if !is_empty_text(dir_name) && !same_text(frontmatter.name.as_str(), dir_name) {
            return Err(
                AgentError::InvalidInput(
                    concat5(
                        "AgentSkill `name` field '",
                        frontmatter.name.as_str(),
                        "' must match the directory name '",
                        dir_name,
                        "'",
                    ),
                ),
            );
        }
        match validate_skill_name(frontmatter.name.as_str()) {
            Ok(_) => {},
            Err(e) => {
                return Err(e);
            },
        }
        match validate_description(frontmatter.description.as_str()) {
            Ok(_) => {},
            Err(e) => {
                return Err(e);
            },
        }
        let allowed_tools = match &frontmatter.allowed_tools {
            Some(t) => words_of(t.as_str()),
            None => {
                proof {
                    reveal_strlit("");
                    assert(""@ =~= Seq::<char>::empty());
                }
                words_of("")
            },
        };
        let mut input_modes: Vec<String> = Vec::new();
        input_modes.push("text/plain".to_owned());
        let mut output_modes: Vec<String> = Vec::new();
        output_modes.push("text/plain".to_owned());
        let metadata = SkillMetadata {
            id: frontmatter.name.clone(),
            name: to_display_name(frontmatter.name.as_str()),
            description: frontmatter.description,
            tags: Vec::new(),
            examples: Vec::new(),
            input_modes,
            output_modes,
            instructions: Some(body.clone()),
            license: frontmatter.license,
            compatibility: frontmatter.compatibility,
            allowed_tools,
        };
        proof {
            assert(texts(metadata.input_modes@) =~= seq!["text/plain"@]);
            assert(texts(metadata.output_modes@) =~= seq!["text/plain"@]);
        }
        Ok(AgentSkillDef { metadata: Arc::new(metadata), instructions: body })
    }

    /// The skill that the text of a file gives. Where the directory has a name, the skill must
    /// have it too. `parse` reads the YAML of the head.
    pub fn from_skill_md_str<F: FnOnce(&str) -> Result<SkillFrontmatter, String>>(
        content: &str,
        dir_name: &str,
        parse: F,
    ) -> (r: Result<AgentSkillDef, AgentError>)
        requires
            forall|y: &str| call_requires(parse, (y,)),
        ensures
            file_gives(content@, dir_name@, parse, r),
    {
        match split_frontmatter(content, parse) {
            Ok((frontmatter, body)) => {
                let r = AgentSkillDef::from_parts(frontmatter, body, dir_name);
                proof {
                    let (yaml, text) = split_file(content@)->Ok_0;
                    let head = Ok::<SkillFrontmatter, String>(frontmatter);
                    assert(parsed(parse, yaml, head));
                    assert(gives(head, text, dir_name@, r));
                }
                r
            },
            Err(e) => Err(e),
        }
    }

    /// The skill in a directory. `path` is the path of the file, `dir_name` the name of the
    /// directory, or empty; `read` is what reading the file gave, and `parse` reads the YAML of
    /// its head.
    pub fn from_dir<F: FnOnce(&str) -> Result<SkillFrontmatter, String>>(
        path: &str,
        dir_name: &str,
        read: Result<String, String>,
        parse: F,
    ) -> (r: Result<AgentSkillDef, AgentError>)
        requires
            forall|y: &str| call_requires(parse, (y,)),
        ensures
            match read {
                Err(m) => r matches Err(x) && x@ == cannot_read(path@, m@),
                Ok(content) => file_gives(content@, dir_name@, parse, r),
            },
    {
        match read {
            Err(m) => {
                let mut s = concat3("Cannot read ", path, ": ");
                s.append(m.as_str());
                Err(AgentError::InvalidInput(s))
            },
            Ok(content) => AgentSkillDef::from_skill_md_str(content.as_str(), dir_name, parse),
        }
    }

    /// The identifier of the skill.
    #[must_use]
    pub fn id(&self) -> (r: &str)
        ensures
            r@ == self.metadata.id@,
    {
        self.metadata.id.as_str()
    }

    /// What is known of the skill.
    #[must_use]
    pub fn metadata(&self) -> (r: &SkillMetadata)
        ensures
            *r == *self.metadata,
    {
        &self.metadata
    }

    /// The skill, run by a model by its instructions.
    pub fn into_registration<L>(self, llm: L) -> (r: SkillRegistration<LlmSkillHandler<L>>)
        ensures
            r.metadata == self.metadata,
            r.handler == (LlmSkillHandler { llm, instructions: self.instructions }),
    {
        SkillRegistration {
            metadata: self.metadata,
            handler: LlmSkillHandler::new(llm, self.instructions),
        }
    }
}

// ---------------------------------------------------------------------------
// Building a skill into a program
// ---------------------------------------------------------------------------

/// A skill file that is built into a program: the text of the file, the name of its directory,
/// and the path by which the program asks for it.
#[derive(Debug)]
pub struct IncludedSkill {
    pub path: String,
    pub dir_name: String,
    pub content: String,
}

/// Why a skill file cannot be built into a program: it could not be read, or it has not the
/// shape of a skill file. `file` is its path, `read` what reading it gave.
pub open spec fn include_error(file: Seq<char>, read: Result<String, String>) -> Option<Seq<char>> {
    match read {
        Err(m) => Some("include_skill!: cannot read "@ + file + ": "@ + m@),
        Ok(content) => shape_error(file, content@),
    }
}

/// What the program says of a skill file that gives no skill when it starts.
pub open spec fn startup_error(path: Seq<char>, e: ErrorView) -> Seq<char> {
    "include_skill!(\""@ + path + "\") — invalid SKILL.md: "@ + e.text()
}

impl IncludedSkill {
    /// The skill file to build into a program that asks for it by `path`, or the text of the
    /// error at which the program is not built. `file` is the path of the file, `dir_name` the
    /// name of its directory, or empty, and `read` what reading the file gave.
    pub fn new(path: &str, file: &str, dir_name: &str, read: Result<String, String>) -> (r: Result<
        IncludedSkill,
        String,
    >)
        ensures
            match r {
                Ok(s) => {
                    &&& include_error(file@, read) is None
                    &&& s.path@ == path@
                    &&& s.dir_name@ == dir_name@
                    &&& s.content@ == read->Ok_0@
                },
                Err(m) => include_error(file@, read) == Some(m@),
            },
    {
        match read {
            Err(m) => {
                let mut s = concat3("include_skill!: cannot read ", file, ": ");
                s.append(m.as_str());
                Err(s)
            },
            Ok(content) => match check_shape(file, content.as_str()) {
                Ok(_) => Ok(
                    IncludedSkill {
                        path: path.to_owned(),
                        dir_name: dir_name.to_owned(),
                        content,
                    },
                ),
                Err(m) => Err(m),
            },
        }
    }

    /// The skill that the file gives when the program starts, or the text with which the program
    /// then ends. `parse` reads the YAML of the head.
    pub fn define<F: FnOnce(&str) -> Result<SkillFrontmatter, String>>(&self, parse: F) -> (r:
        Result<AgentSkillDef, String>)
        requires
            forall|y: &str| call_requires(parse, (y,)),
        ensures
            exists|def: Result<AgentSkillDef, AgentError>| #[trigger]
                file_gives(self.content@, self.dir_name@, parse, def) && match def {
                    Ok(d) => r == Ok::<AgentSkillDef, String>(d),
                    Err(e) => r matches Err(m) && m@ == startup_error(self.path@, e@),
                },
    {
        let def = AgentSkillDef::from_skill_md_str(
            self.content.as_str(),
            self.dir_name.as_str(),
            parse,
        );
        proof {
            assert(file_gives(self.content@, self.dir_name@, parse, def));
        }
        match def {
            Ok(d) => Ok(d),
            Err(e) => {
                let text = e.to_string();
                let mut s = concat3(
                    "include_skill!(\"",
                    self.path.as_str(),
                    "\") — invalid SKILL.md: ",
                );
                s.append(text.as_str());
                Err(s)
            },
        }
    }
}

// ---------------------------------------------------------------------------
// Laws
// ---------------------------------------------------------------------------

/// A name passes the check exactly when it is 1 to 64 lower-case letters, digits and hyphens,
/// with a hyphen neither first nor last nor twice in a row.
pub proof fn checked_names_are_valid(name: Seq<char>)
    ensures
        (name_error(name) is None) == valid_name(name),
{
    reveal_strlit("--");
    let p = "--"@;
    if forall|i: int| 0 <= i < name.len() ==> is_name_char(#[trigger] name[i]) {
        if name.len() > 0 {
            if occurs_in(name, p) {
                let i = choose|i: int| occurs_at(name, p, i);
                assert(name.subrange(i, i + 2)[0] == '-');
                assert(name.subrange(i, i + 2)[1] == '-');
                assert(name[i] == '-' && name[i + 1] == '-');
            } else {
                assert forall|i: int, j: int|
                    0 <= i && j == i + 1 && j < name.len() implies !(#[trigger] name[i] == '-'
                    && #[trigger] name[j] == '-') by {
                    if name[i] == '-' && name[j] == '-' {
                        assert(name.subrange(i, i + 2) =~= p);
                        assert(occurs_at(name, p, i));
                    }
                }
            }
        }
    }
}

/// A skill that was read has a valid name, which is that of its directory where that has one.
pub proof fn read_skills_are_valid(f: FrontmatterModel, dir_name: Seq<char>)
    requires
        head_error(f, dir_name) is None,
    ensures
        valid_name(f.name),
        dir_name.len() > 0 ==> f.name == dir_name,
        1 <= f.description.len() <= 1024,
{
    checked_names_are_valid(f.name);
}

/// The name for people of an identifier in ASCII, character by character: a space for each
/// hyphen, and upper case at the beginning and behind each hyphen.
pub open spec fn shown(id: Seq<char>) -> Seq<char> {
    Seq::new(
        id.len(),
        |i: int|
            if id[i] == '-' {
                ' '
            } else if i == 0 || id[i - 1] == '-' {
                ascii_upper(id[i])
            } else {
                id[i]
            },
    )
}

/// The name of a skill for people differs from its identifier in ASCII by spaces for hyphens
/// and upper case at the beginnings of words.
pub proof fn display_names_in_ascii(id: Seq<char>)
    requires
        forall|i: int| 0 <= i < id.len() ==> #[trigger] id[i] <= '\u{7f}',
    ensures
        display_name(id) == shown(id),
    decreases id.len(),
{
    reveal_strlit(" ");
    let caps = |w: Seq<char>| capitalized(w);
    let p = split_on(id, '-');
    if id.len() == 0 {
        assert(p.map_values(caps) =~= seq![Seq::<char>::empty()]);
        assert(display_name(id) =~= shown(id));
    } else {
        let before = id.drop_last();
        let c = id.last();
        let q = split_on(before, '-');
        assert forall|i: int| 0 <= i < before.len() implies #[trigger] before[i] <= '\u{7f}' by {
            assert(before[i] == id[i]);
        }
        display_names_in_ascii(before);
        lemma_split_some(before, only('-'));
        let a = p.map_values(caps);
        let b = q.map_values(caps);
        assert(id[id.len() - 1] == c);
        if c == '-' {
            assert(a =~= b.push(Seq::<char>::empty()));
            assert(a.drop_last() =~= b);
            assert(join(a, " "@) =~= join(b, " "@) + " "@);
            assert(display_name(id) =~= shown(id));
        } else {
            let w = q.last();
            assert(p =~= q.drop_last().push(w.push(c)));
            assert(a =~= b.drop_last().push(capitalized(w.push(c))));
            assert(b.last() == capitalized(w));
            assert(a.drop_last() =~= b.drop_last());
            assert(w.len() == 0 <==> before.len() == 0 || before.last() == '-');
            let tail = if w.len() == 0 {
                ascii_upper(c)
            } else {
                c
            };
            assert(capitalized(w.push(c)) =~= capitalized(w).push(tail)) by {
                if w.len() > 0 {
                    assert(w.push(c).skip(1) =~= w.skip(1).push(c));
                } else {
                    assert(w.push(c).skip(1) =~= Seq::<char>::empty());
                }
            }
            assert(join(a, " "@) =~= join(b, " "@).push(tail));
            assert(display_name(id) =~= shown(id));
        }
    }
}

/// The name for people of a valid identifier gives the identifier back: in lower case, with
/// hyphens for its spaces. It has no empty word, and no word begins with a lower-case letter.
pub proof fn display_names_give_the_id(id: Seq<char>)
    requires
        valid_name(id),
    ensures
        ({
            let name = display_name(id);
            &&& name.len() == id.len()
            &&& name.map_values(
                |c: char|
                    if c == ' ' {
                        '-'
                    } else {
                        ascii_lower(c)
                    },
            ) == id
            &&& name.last() != ' '
            &&& forall|i: int|
                0 <= i < name.len() && (i == 0 || name[i - 1] == ' ') ==> #[trigger] name[i] != ' '
                    && !('a' <= name[i] <= 'z')
        }),
{
    assert forall|i: int| 0 <= i < id.len() implies #[trigger] id[i] <= '\u{7f}' by {
        assert(is_name_char(id[i]));
    }
    display_names_in_ascii(id);
    let name = display_name(id);
    let back = |c: char|
        if c == ' ' {
            '-'
        } else {
            ascii_lower(c)
        };
    assert forall|i: int| 0 <= i < id.len() implies back(#[trigger] name[i]) == id[i] by {
        assert(is_name_char(id[i]));
    }
    assert(name.map_values(back) =~= id);
    assert forall|i: int| 0 <= i < name.len() && (i == 0 || name[i - 1] == ' ') implies #[trigger]
        name[i] != ' ' && !('a' <= name[i] <= 'z') by {
        assert(is_name_char(id[i]));
        if i > 0 {
            assert(is_name_char(id[i - 1]));
            assert(id[i - 1] == '-');
        }
    }
    assert(is_name_char(id[id.len() - 1]));
}

/// Different valid identifiers have different names for people.
pub proof fn display_names_differ(id: Seq<char>, other: Seq<char>)
    requires
        valid_name(id),
        valid_name(other),
        display_name(id) == display_name(other),
    ensures
        id == other,
{
    display_names_give_the_id(id);
    display_names_give_the_id(other);
}

/// A skill file can be built into a program exactly when it could be read, begins with three
/// hyphens, and has a line that begins with three hyphens later on; what goes wrong with it then
/// goes wrong with its head when the program starts.
pub proof fn well_shaped_files_are_built_in(file: Seq<char>, read: Result<String, String>)
    ensures
        include_error(file, read) is None <==> (read is Ok && starts_with(
            read->Ok_0@,
            "---"@,
        ) && occurs_in(read->Ok_0@, "\n---"@)),
        include_error(file, read) is None ==> split_file(read->Ok_0@) is Ok,
{
    if include_error(file, read) is None {
        good_shape_splits(file, read->Ok_0@);
    }
}

} // verus!
