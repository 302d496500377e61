use vstd::prelude::*;
use vstd::std_specs::cmp::PartialEqSpec;

verus! {

/// The canonical "set" or "unset" value that a cell is compared against.
///
/// Any cell type that implements `PartialEq<MatrixBool>` can be rendered
/// by `Matrix2d::to_display_string`.
pub struct MatrixBool(pub bool);

impl PartialEq<MatrixBool> for bool {
    fn eq(&self, other: &MatrixBool) -> (r: bool)
        ensures
            r == (*self == other.0),
    {
        *self == other.0
    }
}

impl vstd::std_specs::cmp::PartialEqSpecImpl<MatrixBool> for bool {
    open spec fn obeys_eq_spec() -> bool {
        true
    }

    open spec fn eq_spec(&self, other: &MatrixBool) -> bool {
        *self == other.0
    }
}

impl PartialEq<MatrixBool> for u8 {
    fn eq(&self, other: &MatrixBool) -> (r: bool)
        ensures
            r == (*self == (if other.0 { 1u8 } else { 0u8 })),
    {
        *self == other.0 as u8
    }
}

impl vstd::std_specs::cmp::PartialEqSpecImpl<MatrixBool> for u8 {
    open spec fn obeys_eq_spec() -> bool {
        true
    }

    open spec fn eq_spec(&self, other: &MatrixBool) -> bool {
        *self == (if other.0 { 1u8 } else { 0u8 })
    }
}

/// A cell type that can list itself in a structural listing.
pub trait CellDebug {
    /// The text that stands for the cell in a listing.
    spec fn debug_view(&self) -> Seq<char>;

    fn debug_text(&self) -> (r: String)
        ensures
            r@ == self.debug_view(),
    ;
}

impl CellDebug for bool {
    open spec fn debug_view(&self) -> Seq<char> {
        if *self {
            seq!['t', 'r', 'u', 'e']
        } else {
            seq!['f', 'a', 'l', 's', 'e']
        }
    }

    fn debug_text(&self) -> (r: String) {
        if *self {
            let r = String::from_str("true");
            proof {
                reveal_strlit("true");
            }
            r
        } else {
            let r = String::from_str("false");
            proof {
                reveal_strlit("false");
            }
            r
        }
    }
}

/// The decimal digit for `d`, which is below ten.
pub open spec fn digit_char(d: int) -> char {
    (d + 48) as char
}

/// The decimal numeral of `n`, without leading zeros.
pub open spec fn decimal(n: nat) -> Seq<char>
    decreases n,
{
    if n < 10 {
        seq![digit_char(n as int)]
    } else {
        decimal(n / 10).push(digit_char((n % 10) as int))
    }
}

fn digit_str(d: u8) -> (r: &'static str)
    requires
        d < 10,
    ensures
        r@ == seq![digit_char(d as int)],
{
    proof {
        reveal_strlit("0");
        reveal_strlit("1");
        reveal_strlit("2");
        reveal_strlit("3");
        reveal_strlit("4");
        reveal_strlit("5");
        reveal_strlit("6");
        reveal_strlit("7");
        reveal_strlit("8");
        reveal_strlit("9");
    }
    match d {
        0 => "0",
        1 => "1",
        2 => "2",
        3 => "3",
        4 => "4",
        5 => "5",
        6 => "6",
        7 => "7",
        8 => "8",
        _ => "9",
    }
}

impl CellDebug for u8 {
    open spec fn debug_view(&self) -> Seq<char> {
        decimal(*self as nat)
    }

    fn debug_text(&self) -> (r: String) {
        let n = *self;
        let mut r = String::new();
        if n >= 100 {
            r.append(digit_str(n / 100));
        }
        if n >= 10 {
            r.append(digit_str(n / 10 % 10));
        }
        r.append(digit_str(n % 10));
        proof {
            reveal_with_fuel(decimal, 3);
            let m = n as nat;
            if m >= 100 {
                assert(m / 10 / 10 == m / 100);
            }
            assert(r@ =~= decimal(m));
        }
        r
    }
}

/// A boolean cell equals `MatrixBool(true)` exactly when it is `true`, and
/// `MatrixBool(false)` exactly when it is `false`.
pub proof fn lemma_bool_cell_eq(b: bool)
    ensures
        b.eq_spec(&MatrixBool(true)) <==> b == true,
        b.eq_spec(&MatrixBool(false)) <==> b == false,
{
}

/// A byte cell equals `MatrixBool(true)` exactly when it is 1, and
/// `MatrixBool(false)` exactly when it is 0; from 2 up it equals neither.
pub proof fn lemma_u8_cell_eq(n: u8)
    ensures
        n.eq_spec(&MatrixBool(true)) <==> n == 1,
        n.eq_spec(&MatrixBool(false)) <==> n == 0,
        n >= 2 ==> !n.eq_spec(&MatrixBool(true)) && !n.eq_spec(&MatrixBool(false)),
{
}

} // verus!
