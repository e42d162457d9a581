//! The continent areas that IANA time zone identifiers begin with, in the
//! order a menu presents them.

use vstd::prelude::*;

verus! {

/// A continent-level IANA time zone area.
#[derive(Debug, Clone, Copy, PartialEq, Eq, Structural)]
pub enum Continents {
    Africa,
    America,
    Antarctica,
    Asia,
    Atlantic,
    Australia,
    Europe,
    Indian,
    Pacific,
}

impl Continents {
    /// The continents in menu order.
    pub open spec fn spec_all() -> Seq<Continents> {
        seq![
            Continents::Africa,
            Continents::America,
            Continents::Antarctica,
            Continents::Asia,
            Continents::Atlantic,
            Continents::Australia,
            Continents::Europe,
            Continents::Indian,
            Continents::Pacific,
        ]
    }

    /// Every continent, in menu order.
    pub fn iter() -> (v: Vec<Continents>)
        ensures
            v@ == Self::spec_all(),
    {
        let mut v: Vec<Continents> = Vec::new();
        v.push(Continents::Africa);
        v.push(Continents::America);
        v.push(Continents::Antarctica);
        v.push(Continents::Asia);
        v.push(Continents::Atlantic);
        v.push(Continents::Australia);
        v.push(Continents::Europe);
        v.push(Continents::Indian);
        v.push(Continents::Pacific);
        proof {
            assert(v@ =~= Self::spec_all());
        }
        v
    }

    /// The continent at 1-indexed menu position `choice`, if any.
    pub fn from_choice(choice: usize) -> (r: Option<Continents>)
        ensures
            r is Some <==> 1 <= choice <= 9,
            r is Some ==> r->0 == Self::spec_all()[choice - 1],
    {
        if choice == 1 {
            Some(Continents::Africa)
        } else if choice == 2 {
            Some(Continents::America)
        } else if choice == 3 {
            Some(Continents::Antarctica)
        } else if choice == 4 {
            Some(Continents::Asia)
        } else if choice == 5 {
            Some(Continents::Atlantic)
        } else if choice == 6 {
            Some(Continents::Australia)
        } else if choice == 7 {
            Some(Continents::Europe)
        } else if choice == 8 {
            Some(Continents::Indian)
        } else if choice == 9 {
            Some(Continents::Pacific)
        } else {
            None
        }
    }

    /// The continent's name, as it stands in an IANA identifier.
    pub fn name(&self) -> (s: &'static str)
        ensures
            match *self {
                Continents::Africa => s@ == "Africa"@,
                Continents::America => s@ == "America"@,
                Continents::Antarctica => s@ == "Antarctica"@,
                Continents::Asia => s@ == "Asia"@,
                Continents::Atlantic => s@ == "Atlantic"@,
                Continents::Australia => s@ == "Australia"@,
                Continents::Europe => s@ == "Europe"@,
                Continents::Indian => s@ == "Indian"@,
                Continents::Pacific => s@ == "Pacific"@,
            },
    {
        match self {
            Continents::Africa => "Africa",
            Continents::America => "America",
            Continents::Antarctica => "Antarctica",
            Continents::Asia => "Asia",
            Continents::Atlantic => "Atlantic",
            Continents::Australia => "Australia",
            Continents::Europe => "Europe",
            Continents::Indian => "Indian",
            Continents::Pacific => "Pacific",
        }
    }
}

} // verus!
