//! The recoverable errors of the tree operations.
use vstd::prelude::*;
use vstd::string::StringExecFns;

verus! {

/// Why a tree operation was refused. Each variant names the fiber it is about.
#[derive(Clone, Copy, Debug, PartialEq, Eq, Structural)]
pub enum FiberStoreError {
    /// A fiber is already mounted under this id.
    FiberAlreadyExists(u32),
    /// No fiber is mounted under this id.
    FiberDoesntExist(u32),
    /// The fiber under this id was mounted for another signature.
    FiberTypeMismatch(u32),
    /// The parent named at mount is not mounted.
    ParentDoesNotExist(u32),
}

/// The character of a decimal digit.
pub open spec fn digit(d: nat) -> char {
    if d == 0 {
        '0'
    } else if d == 1 {
        '1'
    } else if d == 2 {
        '2'
    } else if d == 3 {
        '3'
    } else if d == 4 {
        '4'
    } else if d == 5 {
        '5'
    } else if d == 6 {
        '6'
    } else if d == 7 {
        '7'
    } else if d == 8 {
        '8'
    } else {
        '9'
    }
}

/// A number in decimal, without leading zeros.
pub open spec fn decimal(n: nat) -> Seq<char>
    decreases n,
{
    if n < 10 {
        seq![digit(n)]
    } else {
        decimal(n / 10).push(digit(n % 10))
    }
}

fn digit_text(d: u32) -> (text: &'static str)
    requires
        d < 10,
    ensures
        text@ == seq![digit(d as nat)],
{
    proof {
        reveal_strlit("0");
        reveal_strlit("1");
        reveal_strlit("2");
        reveal_strlit("3");
        reveal_strlit("4");
        reveal_strlit("5");
        reveal_strlit("6");
        reveal_strlit("7");
        reveal_strlit("8");
        reveal_strlit("9");
    }
    let text = if d == 0 {
        "0"
    } else if d == 1 {
        "1"
    } else if d == 2 {
        "2"
    } else if d == 3 {
        "3"
    } else if d == 4 {
        "4"
    } else if d == 5 {
        "5"
    } else if d == 6 {
        "6"
    } else if d == 7 {
        "7"
    } else if d == 8 {
        "8"
    } else {
        "9"
    };
    assert(text@ =~= seq![digit(d as nat)]);
    text
}

/// Writes `n` in decimal.
pub fn decimal_text(n: u32) -> (text: String)
    ensures
        text@ == decimal(n as nat),
    decreases n,
{
    if n < 10 {
        String::from_str(digit_text(n))
    } else {
        let mut text = decimal_text(n / 10);
        text.append(digit_text(n % 10));
        assert(text@ =~= decimal(n as nat));
        text
    }
}

impl FiberStoreError {
    /// The id of the fiber the error is about.
    pub open spec fn subject(self) -> u32 {
        match self {
            FiberStoreError::FiberAlreadyExists(id) => id,
            FiberStoreError::FiberDoesntExist(id) => id,
            FiberStoreError::FiberTypeMismatch(id) => id,
            FiberStoreError::ParentDoesNotExist(id) => id,
        }
    }

    /// What stands before the id in the message.
    pub open spec fn lead(self) -> Seq<char> {
        match self {
            FiberStoreError::ParentDoesNotExist(_) => "Parent fiber with id "@,
            _ => "Fiber with id "@,
        }
    }

    /// What stands after the id in the message.
    pub open spec fn tail(self) -> Seq<char> {
        match self {
            FiberStoreError::FiberAlreadyExists(_) => " already exists"@,
            FiberStoreError::FiberDoesntExist(_) => " doesn't exist"@,
            FiberStoreError::FiberTypeMismatch(_) => " has a different type"@,
            FiberStoreError::ParentDoesNotExist(_) => " doesn't exist"@,
        }
    }

    /// The error in words: what happened, to the fiber of which id.
    pub fn message(&self) -> (text: String)
        ensures
            text@ == self.lead() + decimal(self.subject() as nat) + self.tail(),
    {
        let (lead, id, tail) = match self {
            FiberStoreError::FiberAlreadyExists(id) => ("Fiber with id ", *id, " already exists"),
            FiberStoreError::FiberDoesntExist(id) => ("Fiber with id ", *id, " doesn't exist"),
            FiberStoreError::FiberTypeMismatch(id) => (
                "Fiber with id ",
                *id,
                " has a different type",
            ),
            FiberStoreError::ParentDoesNotExist(id) => (
                "Parent fiber with id ",
                *id,
                " doesn't exist",
            ),
        };
        let mut text = String::from_str(lead);
        text.append(decimal_text(id).as_str());
        text.append(tail);
        text
    }
}

} // verus!
