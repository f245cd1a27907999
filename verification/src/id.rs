use vstd::prelude::*;

verus! {

/// The identifier of an option or of a message.
#[derive(Debug, Copy, Clone, PartialEq, Eq, Hash, Structural)]
pub struct Identifier(pub u64);

impl Identifier {
    pub fn new(id: u64) -> (r: Self)
        ensures
            r.0 == id,
    {
        Self(id)
    }

    /// Increment the identifier by one.
    pub fn inc(&mut self) -> (r: &mut Self)
        requires
            old(self).0 < u64::MAX,
        ensures
            r.0 == old(self).0 + 1,
            *final(self) == *final(r),
    {
        self.0 = self.0 + 1;
        self
    }

    pub fn set(&mut self, id: u64) -> (r: &mut Self)
        ensures
            r.0 == id,
            *final(self) == *final(r),
    {
        self.0 = id;
        self
    }

    pub fn get(&self) -> (r: u64)
        ensures
            r == self.0,
    {
        self.0
    }
}

impl std::ops::Add<Identifier> for Identifier {
    type Output = Identifier;

    /// The identifier whose number is the sum of the two.
    fn add(self, other: Identifier) -> (r: Identifier) {
        Identifier(self.0 + other.0)
    }
}

impl vstd::std_specs::ops::AddSpecImpl<Identifier> for Identifier {
    open spec fn obeys_add_spec() -> bool {
        true
    }

    open spec fn add_req(self, other: Identifier) -> bool {
        self.0 + other.0 <= u64::MAX
    }

    open spec fn add_spec(self, other: Identifier) -> Identifier {
        Identifier((self.0 + other.0) as u64)
    }
}

impl std::ops::Add<u64> for Identifier {
    type Output = Identifier;

    /// The identifier `other` further on.
    fn add(self, other: u64) -> (r: Identifier) {
        Identifier(self.0 + other)
    }
}

impl vstd::std_specs::ops::AddSpecImpl<u64> for Identifier {
    open spec fn obeys_add_spec() -> bool {
        true
    }

    open spec fn add_req(self, other: u64) -> bool {
        self.0 + other <= u64::MAX
    }

    open spec fn add_spec(self, other: u64) -> Identifier {
        Identifier((self.0 + other) as u64)
    }
}

impl Default for Identifier {
    fn default() -> (r: Self)
        ensures
            r.0 == 0,
    {
        Self(0)
    }
}

/// A source of fresh identifiers.
pub trait IdGenerator {
    /// The identifier that the next call of `next_id` hands out.
    spec fn spec_next(&self) -> u64;

    /// Get next [`Identifier`]
    fn next_id(&mut self) -> (r: Identifier)
        requires
            old(self).spec_next() < u64::MAX,
        ensures
            r.0 == old(self).spec_next(),
            final(self).spec_next() == old(self).spec_next() + 1,
    ;

    /// Set the identifier to `id`
    fn reset(&mut self, id: Identifier)
        ensures
            final(self).spec_next() == id.0,
    ;
}

/// Default [`Identifier`] generator, not thread safe
#[derive(Debug)]
pub struct DefaultIdGen {
    pub id: Identifier,
}

impl DefaultIdGen {
    pub fn new(id: Identifier) -> (r: Self)
        ensures
            r.id == id,
    {
        Self { id }
    }
}

impl Default for DefaultIdGen {
    fn default() -> (r: Self)
        ensures
            r.id.0 == 0,
    {
        Self { id: Identifier(0) }
    }
}

impl IdGenerator for DefaultIdGen {
    open spec fn spec_next(&self) -> u64 {
        self.id.0
    }

    fn next_id(&mut self) -> (r: Identifier) {
        let id = self.id;
        self.id.inc();
        id
    }

    fn reset(&mut self, id: Identifier) {
        self.id = id;
    }
}

} // verus!
