use vstd::prelude::*;

use crate::auth::EnsureAuthError;
use crate::username::Username;

verus! {

/// Flag bit: the project is public.
pub const PUBLIC: u8 = 1;

/// Flag bit: comments are allowed.
pub const COMMENTS_ALLOWED: u8 = 2;

/// Flag bit: the project is published.
pub const IS_PUBLISHED: u8 = 4;

/// Flag bit: the author is on the platform's team.
pub const AUTHOR_SCRATCH_TEAM: u8 = 8;

/// Largest length in bytes of a stored text: what a two-byte length prefix can count.
pub const TEXT_CAPACITY: usize = 65535;

/// A project of the platform.
#[derive(Clone, Debug, PartialEq, Eq)]
pub struct Project {
    pub id: u64,
    pub public: bool,
    pub comments_allowed: bool,
    pub is_published: bool,
    pub author_id: u64,
    pub author_name: Username,
    pub author_scratch_team: bool,
    pub created: i64,
    pub modified: i64,
    pub shared: i64,
    pub title: String,
    pub description: String,
    pub instructions: String,
}

/// A stored project: the four booleans packed into a flag byte, and texts that
/// fit their length prefix.
#[derive(Clone, Debug, PartialEq, Eq)]
pub struct DbRepr {
    pub flags: u8,
    pub id: u64,
    pub author_id: u64,
    pub author_name: Username,
    pub created: i64,
    pub modified: i64,
    pub shared: i64,
    pub title: String,
    pub description: String,
    pub instructions: String,
}

/// Why a project cannot be stored.
#[derive(Clone, Copy, Debug, PartialEq, Eq, Structural)]
pub enum ToDbReprError {
    TitleTooLong,
    DescriptionTooLong,
    InstructionsTooLong,
}

/// The document that the search mirror holds for a project.
#[derive(Clone, Debug, PartialEq, Eq)]
pub struct MeiliDoc {
    pub id: u64,
    pub title: String,
    pub description: String,
    pub instructions: String,
}

/// Why a project could not be read.
#[derive(Clone, Copy, Debug, PartialEq, Eq, Structural)]
pub enum GetByIdError {
    Auth(EnsureAuthError),
    NotFound,
}

/// Why a project could not be added.
#[derive(Clone, Copy, Debug, PartialEq, Eq, Structural)]
pub enum AddError {
    Internal,
    Auth(EnsureAuthError),
    BadInput(ToDbReprError),
}

/// Length in bytes of the UTF-8 encoding of a text.
pub open spec fn text_len(s: Seq<char>) -> nat {
    vstd::utf8::encode_utf8(s).len()
}

/// Whether a text fits its length prefix.
pub open spec fn fits(s: Seq<char>) -> bool {
    text_len(s) <= TEXT_CAPACITY
}

/// The flag byte of a project.
pub open spec fn flags_of(p: Project) -> u8 {
    ((if p.public { 1int } else { 0int }) + (if p.comments_allowed { 2int } else { 0int }) + (
    if p.is_published { 4int } else { 0int }) + (if p.author_scratch_team { 8int } else { 0int })) as u8
}

/// Whether bit `b` (0 to 7) of `f` is set.
pub open spec fn bit(f: u8, b: nat) -> bool {
    (f as int / vstd::arithmetic::power2::pow2(b) as int) % 2 == 1
}

/// The stored form of a project whose texts fit.
pub open spec fn db_repr_of(p: Project) -> DbRepr {
    DbRepr {
        flags: flags_of(p),
        id: p.id,
        author_id: p.author_id,
        author_name: p.author_name,
        created: p.created,
        modified: p.modified,
        shared: p.shared,
        title: p.title,
        description: p.description,
        instructions: p.instructions,
    }
}

/// The project that a stored form holds.
pub open spec fn project_of(d: DbRepr) -> Project {
    Project {
        id: d.id,
        public: bit(d.flags, 0),
        comments_allowed: bit(d.flags, 1),
        is_published: bit(d.flags, 2),
        author_id: d.author_id,
        author_name: d.author_name,
        author_scratch_team: bit(d.flags, 3),
        created: d.created,
        modified: d.modified,
        shared: d.shared,
        title: d.title,
        description: d.description,
        instructions: d.instructions,
    }
}

/// What storing a project gives: the first text that does not fit, else the
/// stored form.
pub open spec fn to_db_repr_result(p: Project) -> Result<DbRepr, ToDbReprError> {
    if !fits(p.title@) {
        Err(ToDbReprError::TitleTooLong)
    } else if !fits(p.description@) {
        Err(ToDbReprError::DescriptionTooLong)
    } else if !fits(p.instructions@) {
        Err(ToDbReprError::InstructionsTooLong)
    } else {
        Ok(db_repr_of(p))
    }
}

proof fn lemma_pow2_small()
    ensures
        vstd::arithmetic::power2::pow2(0) == 1,
        vstd::arithmetic::power2::pow2(1) == 2,
        vstd::arithmetic::power2::pow2(2) == 4,
        vstd::arithmetic::power2::pow2(3) == 8,
{
    vstd::arithmetic::power2::lemma2_to64();
}

/// Storing a project and reading it back gives the same project.
pub proof fn lemma_project_round_trip(p: Project)
    ensures
        project_of(db_repr_of(p)) == p,
{
    lemma_pow2_small();
    let f = flags_of(p) as int;
    let a = if p.public { 1int } else { 0int };
    let b = if p.comments_allowed { 1int } else { 0int };
    let c = if p.is_published { 1int } else { 0int };
    let d = if p.author_scratch_team { 1int } else { 0int };
    assert(f == a + 2 * b + 4 * c + 8 * d);
    assert(f % 2 == a);
    assert((f / 2) % 2 == b);
    assert((f / 4) % 2 == c);
    assert((f / 8) % 2 == d);
}

fn text_fits(s: &String) -> (r: bool)
    ensures
        r == fits(s@),
{
    s.as_str().as_bytes().len() <= TEXT_CAPACITY
}

impl Project {
    /// The stored form of the project, or the first text that does not fit.
    pub fn to_db_repr(self) -> (r: Result<DbRepr, ToDbReprError>)
        ensures
            r == to_db_repr_result(self),
    {
        if !text_fits(&self.title) {
            return Err(ToDbReprError::TitleTooLong);
        }
        if !text_fits(&self.description) {
            return Err(ToDbReprError::DescriptionTooLong);
        }
        if !text_fits(&self.instructions) {
            return Err(ToDbReprError::InstructionsTooLong);
        }
        let mut flags: u8 = 0;
        if self.public {
            flags = flags + PUBLIC;
        }
        if self.comments_allowed {
            flags = flags + COMMENTS_ALLOWED;
        }
        if self.is_published {
            flags = flags + IS_PUBLISHED;
        }
        if self.author_scratch_team {
            flags = flags + AUTHOR_SCRATCH_TEAM;
        }
        Ok(
            DbRepr {
                flags,
                id: self.id,
                author_id: self.author_id,
                author_name: self.author_name,
                created: self.created,
                modified: self.modified,
                shared: self.shared,
                title: self.title,
                description: self.description,
                instructions: self.instructions,
            },
        )
    }
}

impl DbRepr {
    /// The project that this stored form holds.
    pub fn to_project(&self) -> (r: Project)
        ensures
            r == project_of(*self),
    {
        proof {
            lemma_pow2_small();
        }
        let f = self.flags;
        Project {
            id: self.id,
            public: f % 2 == 1,
            comments_allowed: (f / 2) % 2 == 1,
            is_published: (f / 4) % 2 == 1,
            author_id: self.author_id,
            author_name: self.author_name,
            author_scratch_team: (f / 8) % 2 == 1,
            created: self.created,
            modified: self.modified,
            shared: self.shared,
            title: self.title.clone(),
            description: self.description.clone(),
            instructions: self.instructions.clone(),
        }
    }
}

} // verus!
