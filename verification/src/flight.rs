//! The single-flight discipline: one generation counter per mutation
//! category. Beginning a request bumps the category's generation and hands
//! out the new value as the request's token; a completion applies only while
//! its token still equals the live generation, so a newer request in the
//! same category silently supersedes an older one.

use vstd::prelude::*;

verus! {

/// The five request categories, each tracked independently: requests of
/// different categories may be in flight at once.
#[derive(Clone, Copy, Debug, PartialEq, Eq, Structural)]
pub enum Category {
    Load,
    Create,
    Update,
    Delete,
    Reparent,
}

/// The live generation of each category. A token equal to the category's
/// generation belongs to the newest request begun in it.
#[derive(Clone, Copy, Debug, PartialEq, Eq, Structural)]
pub struct Flights {
    pub load: u64,
    pub create: u64,
    pub update: u64,
    pub delete: u64,
    pub reparent: u64,
}

/// The generation that follows `g`: the counter steps by one and wraps at
/// the machine bound.
pub open spec fn next_gen(g: u64) -> u64 {
    if g == u64::MAX {
        0
    } else {
        (g + 1) as u64
    }
}

/// The live generation of category `c`.
pub open spec fn gen_of(f: Flights, c: Category) -> u64 {
    match c {
        Category::Load => f.load,
        Category::Create => f.create,
        Category::Update => f.update,
        Category::Delete => f.delete,
        Category::Reparent => f.reparent,
    }
}

/// `f` with the generation of category `c` stepped once.
pub open spec fn bump(f: Flights, c: Category) -> Flights {
    match c {
        Category::Load => Flights { load: next_gen(f.load), ..f },
        Category::Create => Flights { create: next_gen(f.create), ..f },
        Category::Update => Flights { update: next_gen(f.update), ..f },
        Category::Delete => Flights { delete: next_gen(f.delete), ..f },
        Category::Reparent => Flights { reparent: next_gen(f.reparent), ..f },
    }
}

/// Stepping a generation always changes it: a new request never reuses the
/// live token it supersedes.
pub proof fn lemma_next_gen_changes(g: u64)
    ensures
        next_gen(g) != g,
{
}

/// Of two requests begun one after the other in the same category, the
/// earlier token is dead as soon as the later one is begun.
pub proof fn lemma_supersede(f: Flights, c: Category)
    ensures
        gen_of(bump(f, c), c) != gen_of(bump(bump(f, c), c), c),
{
}

impl Flights {
    /// No request begun yet in any category.
    pub fn new() -> (f: Flights)
        ensures
            f == (Flights { load: 0, create: 0, update: 0, delete: 0, reparent: 0 }),
    {
        Flights { load: 0, create: 0, update: 0, delete: 0, reparent: 0 }
    }

    /// Begins a request in category `c`: steps the category's generation and
    /// returns it as the new request's token. Any token handed out earlier
    /// in the category stops being live.
    pub fn begin(&mut self, c: Category) -> (t: u64)
        ensures
            *final(self) == bump(*old(self), c),
            t == gen_of(*final(self), c),
            t != gen_of(*old(self), c),
    {
        match c {
            Category::Load => {
                self.load = if self.load == u64::MAX {
                    0
                } else {
                    self.load + 1
                };
                self.load
            },
            Category::Create => {
                self.create = if self.create == u64::MAX {
                    0
                } else {
                    self.create + 1
                };
                self.create
            },
            Category::Update => {
                self.update = if self.update == u64::MAX {
                    0
                } else {
                    self.update + 1
                };
                self.update
            },
            Category::Delete => {
                self.delete = if self.delete == u64::MAX {
                    0
                } else {
                    self.delete + 1
                };
                self.delete
            },
            Category::Reparent => {
                self.reparent = if self.reparent == u64::MAX {
                    0
                } else {
                    self.reparent + 1
                };
                self.reparent
            },
        }
    }

    /// Whether `t` is the token of the newest request begun in category `c`:
    /// only such a completion may apply its effects.
    pub fn is_live(&self, c: Category, t: u64) -> (r: bool)
        ensures
            r == (t == gen_of(*self, c)),
    {
        match c {
            Category::Load => t == self.load,
            Category::Create => t == self.create,
            Category::Update => t == self.update,
            Category::Delete => t == self.delete,
            Category::Reparent => t == self.reparent,
        }
    }
}

} // verus!
