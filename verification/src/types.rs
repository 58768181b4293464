//! The 3-bit coordinate, the 6-bit point and their bit-level operators.

use crate::random::random_below;
use vstd::prelude::*;
use vstd::string::*;

verus! {

/// Whether the bit at `position` (0 is the least significant) is set in `code`.
pub open spec fn bit_at(code: u8, position: u8) -> bool {
    (code >> position) & 1 == 1
}

/// 1 where `a` and `b` disagree at `position`, else 0.
pub open spec fn differs_at(a: u8, b: u8, position: u8) -> nat {
    if bit_at(a, position) != bit_at(b, position) {
        1
    } else {
        0
    }
}

/// In how many of the six encoding bits `a` and `b` disagree.
pub open spec fn differing_bits(a: u8, b: u8) -> nat {
    differs_at(a, b, 0) + differs_at(a, b, 1) + differs_at(a, b, 2) + differs_at(a, b, 3)
        + differs_at(a, b, 4) + differs_at(a, b, 5)
}

/// The mask that selects the `point` low bits of a byte.
pub open spec fn low_mask(point: u8) -> u8 {
    !(0xffu8 << point)
}

/// The code made of the bits of `high` from `point` upwards and the `point`
/// low bits of `low`.
pub open spec fn splice(high: u8, low: u8, point: u8) -> u8 {
    (high & !low_mask(point)) | (low & low_mask(point))
}

/// The code `code` with one bit flipped; `bit` counts from the most
/// significant of the six encoding bits.
pub open spec fn flipped(code: u8, bit: u8) -> u8 {
    code ^ (0b0010_0000u8 >> bit)
}

/// The code of child `index` of the parents `a` and `b`. Children come in
/// pairs, one pair for each crossover point from 1 to 5: the first child of a
/// pair takes its `point` low bits from `b` and the bits above from `a`, the
/// second takes them the other way round.
pub open spec fn child_code(a: u8, b: u8, index: int) -> u8 {
    let point = (index / 2 + 1) as u8;
    if index % 2 == 0 {
        splice(a, b, point)
    } else {
        splice(b, a, point)
    }
}

/// The three binary digits of `n`, most significant first.
pub open spec fn bits_of(n: nat) -> Seq<bool> {
    seq![n / 4 % 2 == 1, n / 2 % 2 == 1, n % 2 == 1]
}

/// One character per flag: `'1'` for a set bit, `'0'` for a clear one.
pub open spec fn bits_text(bits: Seq<bool>) -> Seq<char> {
    Seq::new(
        bits.len(),
        |i: int|
            if bits[i] {
                '1'
            } else {
                '0'
            },
    )
}

/// The decimal digit that shows a coordinate.
pub open spec fn digit(n: nat) -> char {
    if n == 0 {
        '0'
    } else if n == 1 {
        '1'
    } else if n == 2 {
        '2'
    } else if n == 3 {
        '3'
    } else if n == 4 {
        '4'
    } else if n == 5 {
        '5'
    } else if n == 6 {
        '6'
    } else {
        '7'
    }
}

/// The three bits of a coordinate, most significant first.
#[derive(Clone, Copy, Debug)]
pub struct Bits {
    bits: [bool; 3],
}

impl View for Bits {
    type V = Seq<bool>;

    closed spec fn view(&self) -> Seq<bool> {
        self.bits@
    }
}

impl Bits {
    /// The bits as a string of three characters, `'0'` or `'1'` each.
    pub fn to_string(&self) -> (text: String)
        ensures
            self@.len() == 3,
            text@ == bits_text(self@),
    {
        let mut text = String::new();
        let mut i: usize = 0;
        while i < 3
            invariant
                i <= 3,
                self@.len() == 3,
                text@ == bits_text(self@.subrange(0, i as int)),
            decreases 3 - i,
        {
            proof {
                reveal_strlit("1");
                reveal_strlit("0");
            }
            if self.bits[i] {
                text.append("1");
            } else {
                text.append("0");
            }
            i += 1;
            assert(text@ =~= bits_text(self@.subrange(0, i as int)));
        }
        assert(self@.subrange(0, 3) =~= self@);
        text
    }
}

/// A coordinate in `[0, 7]`, held in the three low bits of a byte.
#[derive(Clone, Copy, Debug, PartialEq, Eq, Structural)]
pub struct Number {
    value: u8,
}

impl View for Number {
    type V = nat;

    closed spec fn view(&self) -> nat {
        self.value as nat
    }
}

impl Number {
    /// Every coordinate lies in `[0, 7]`.
    #[verifier::type_invariant]
    pub open spec fn wf(&self) -> bool {
        self@ < 8
    }

    /// The coordinate `value`, or nothing when `value` lies outside `[0, 7]`.
    pub fn new(value: u8) -> (number: Option<Number>)
        ensures
            match number {
                Some(n) => value < 8 && n@ == value && n.wf(),
                None => value >= 8,
            },
    {
        if value < 8 {
            Some(Number { value })
        } else {
            None
        }
    }

    /// The coordinate as an integer.
    pub fn value(&self) -> (value: u8)
        ensures
            value == self@,
            value < 8,
    {
        proof {
            use_type_invariant(self);
        }
        self.value
    }

    /// The binary digits of the coordinate.
    pub fn bits(&self) -> (bits: Bits)
        ensures
            bits@ == bits_of(self@),
    {
        let v: u8 = self.value;
        let high: bool = v & 0b100 != 0;
        let middle: bool = v & 0b010 != 0;
        let low: bool = v & 0b001 != 0;
        assert(high == (v / 4 % 2 == 1) && middle == (v / 2 % 2 == 1) && low == (v % 2 == 1))
            by (bit_vector)
            requires
                high == (v & 0b100 != 0),
                middle == (v & 0b010 != 0),
                low == (v & 0b001 != 0),
        ;
        let bits = Bits { bits: [high, middle, low] };
        assert(bits@ =~= bits_of(self@));
        bits
    }

    /// A coordinate drawn at random from `[0, 7]`.
    pub fn random() -> (number: Number)
        ensures
            number.wf(),
    {
        let value: u8 = random_below(8);
        Number { value }
    }
}

/// A grid point: two coordinates packed into six bits, `x` in bits 5 to 3
/// and `y` in bits 2 to 0.
#[derive(Clone, Copy, Debug, PartialEq, Eq, Structural)]
pub struct Pair {
    value: u8,
}

impl View for Pair {
    type V = (nat, nat);

    open spec fn view(&self) -> (nat, nat) {
        ((self.code() / 8) as nat, (self.code() % 8) as nat)
    }
}

impl Pair {
    /// The six encoding bits of the point, as a number.
    pub closed spec fn code(&self) -> u8 {
        self.value
    }

    /// The two high bits of the backing byte are clear.
    #[verifier::type_invariant]
    pub open spec fn wf(&self) -> bool {
        self.code() < 64
    }

    /// The point that packs `x` and `y`.
    pub closed spec fn spec_new(x: Number, y: Number) -> Pair {
        Pair { value: (8 * x.value + y.value) as u8 }
    }

    /// The first coordinate of the point.
    pub closed spec fn spec_x(&self) -> Number {
        Number { value: self.value / 8 }
    }

    /// The second coordinate of the point.
    pub closed spec fn spec_y(&self) -> Number {
        Number { value: self.value % 8 }
    }

    /// Packs two coordinates into a point.
    #[verifier::when_used_as_spec(spec_new)]
    pub fn new(x: Number, y: Number) -> (pair: Pair)
        ensures
            pair == Pair::spec_new(x, y),
            pair@ == (x@, y@),
            pair.code() == 8 * x@ + y@,
    {
        proof {
            use_type_invariant(&x);
            use_type_invariant(&y);
        }
        let xv: u8 = x.value();
        let yv: u8 = y.value();
        let value: u8 = (xv << 3) | yv;
        assert(value == 8 * xv + yv) by (bit_vector)
            requires
                value == (xv << 3) | yv,
                xv < 8,
                yv < 8,
        ;
        Pair { value }
    }

    /// The first coordinate of the point.
    #[verifier::when_used_as_spec(spec_x)]
    pub fn x(&self) -> (x: Number)
        ensures
            x == self.spec_x(),
            x@ == self@.0,
    {
        proof {
            use_type_invariant(self);
        }
        let v: u8 = self.value;
        let value: u8 = v >> 3;
        assert(value == v / 8) by (bit_vector)
            requires
                value == v >> 3,
        ;
        Number { value }
    }

    /// The second coordinate of the point.
    #[verifier::when_used_as_spec(spec_y)]
    pub fn y(&self) -> (y: Number)
        ensures
            y == self.spec_y(),
            y@ == self@.1,
    {
        let v: u8 = self.value;
        let value: u8 = v & 0b0000_0111;
        assert(value == v % 8) by (bit_vector)
            requires
                value == v & 0b0000_0111,
        ;
        Number { value }
    }

    /// A point drawn at random from the grid.
    pub fn random() -> (pair: Pair)
        ensures
            pair.wf(),
    {
        Pair::new(Number::random(), Number::random())
    }

    /// The ten children of `self` and `other`: for each crossover point from
    /// 1 to 5, first the child with the high bits of `self` and the low bits
    /// of `other`, then the child with the parents swapped.
    pub fn crossover(&self, other: &Pair) -> (children: Vec<Pair>)
        ensures
            children@.len() == 10,
            forall|i: int|
                0 <= i < 10 ==> (#[trigger] children@[i]).code() == child_code(
                    self.code(),
                    other.code(),
                    i,
                ),
            children@[4]@ == (self@.0, other@.1),
            children@[5]@ == (other@.0, self@.1),
    {
        proof {
            use_type_invariant(self);
            use_type_invariant(other);
            lemma_splice_coordinates(self.code(), other.code());
            lemma_splice_coordinates(other.code(), self.code());
        }
        let a: u8 = self.value;
        let b: u8 = other.value;
        let mut children: Vec<Pair> = Vec::new();
        let mut point: u8 = 1;
        while point <= 5
            invariant
                1 <= point <= 6,
                a < 64,
                b < 64,
                a == self.code(),
                b == other.code(),
                children@.len() == 2 * (point - 1),
                forall|i: int|
                    0 <= i < children@.len() ==> (#[trigger] children@[i]).code() == child_code(
                        a,
                        b,
                        i,
                    ),
            decreases 6 - point,
        {
            let mask: u8 = 0b0011_1111 >> (6 - point);
            let first: u8 = (a & !mask) | (b & mask);
            let second: u8 = (b & !mask) | (a & mask);
            assert(first == splice(a, b, point) && second == splice(b, a, point) && first < 64
                && second < 64) by (bit_vector)
                requires
                    1 <= point <= 5,
                    a < 64,
                    b < 64,
                    mask == 0b0011_1111u8 >> (6 - point) as u8,
                    first == (a & !mask) | (b & mask),
                    second == (b & !mask) | (a & mask),
            ;
            children.push(Pair { value: first });
            children.push(Pair { value: second });
            point += 1;
        }
        children
    }

    /// Flips one encoding bit; `bit` counts from the most significant of the
    /// six.
    pub fn flip(&mut self, bit: u8)
        requires
            bit < 6,
        ensures
            final(self).code() == flipped(old(self).code(), bit),
    {
        proof {
            use_type_invariant(&*self);
        }
        let v: u8 = self.value;
        let value: u8 = v ^ (0b0010_0000 >> bit);
        assert(value < 64) by (bit_vector)
            requires
                v < 64,
                bit < 6,
                value == v ^ (0b0010_0000u8 >> bit),
        ;
        self.value = value;
    }

    /// Flips one encoding bit, chosen at random.
    pub fn mutate(&mut self)
        ensures
            exists|bit: u8| bit < 6 && final(self).code() == #[trigger] flipped(old(self).code(), bit),
            differing_bits(old(self).code(), final(self).code()) == 1,
    {
        let bit: u8 = random_below(6);
        proof {
            use_type_invariant(&*self);
            lemma_flip_one_bit(self.code(), bit);
        }
        self.flip(bit);
    }

    /// The point as text: both coordinates in round brackets, a comma
    /// between them.
    pub fn to_string(&self) -> (text: String)
        ensures
            text@ == seq!['(', digit(self@.0), ',', digit(self@.1), ')'],
    {
        proof {
            reveal_strlit("(");
            reveal_strlit(",");
            reveal_strlit(")");
        }
        let mut text = String::new();
        text.append("(");
        text.append(digit_text(self.x().value()));
        text.append(",");
        text.append(digit_text(self.y().value()));
        text.append(")");
        assert(text@ =~= seq!['(', digit(self@.0), ',', digit(self@.1), ')']);
        text
    }
}

/// The digit of a coordinate as a string of one character.
fn digit_text(value: u8) -> (text: &'static str)
    requires
        value < 8,
    ensures
        text@ == seq![digit(value as nat)],
{
    proof {
        reveal_strlit("0");
        reveal_strlit("1");
        reveal_strlit("2");
        reveal_strlit("3");
        reveal_strlit("4");
        reveal_strlit("5");
        reveal_strlit("6");
        reveal_strlit("7");
    }
    let text = if value == 0 {
        "0"
    } else if value == 1 {
        "1"
    } else if value == 2 {
        "2"
    } else if value == 3 {
        "3"
    } else if value == 4 {
        "4"
    } else if value == 5 {
        "5"
    } else if value == 6 {
        "6"
    } else {
        "7"
    };
    assert(text@ =~= seq![digit(value as nat)]);
    text
}

/// Packing then unpacking gives the two coordinates back.
pub proof fn lemma_unpack_pack(x: Number, y: Number)
    requires
        x.wf(),
        y.wf(),
    ensures
        Pair::new(x, y).wf(),
        Pair::new(x, y).x() == x,
        Pair::new(x, y).y() == y,
{
}

/// Unpacking then packing gives the point back.
pub proof fn lemma_pack_unpack(pair: Pair)
    requires
        pair.wf(),
    ensures
        pair.x().wf(),
        pair.y().wf(),
        Pair::new(pair.x(), pair.y()) == pair,
{
}

/// Two points with the same code are the same point.
pub proof fn lemma_code_identifies(p: Pair, q: Pair)
    requires
        p.code() == q.code(),
    ensures
        p == q,
{
}

/// Flipping one bit of a code below 64 leaves it below 64 and changes exactly
/// one of the six encoding bits: the one at position `5 - bit`.
pub proof fn lemma_flip_one_bit(code: u8, bit: u8)
    requires
        code < 64,
        bit < 6,
    ensures
        flipped(code, bit) < 64,
        differing_bits(code, flipped(code, bit)) == 1,
        forall|position: u8|
            position < 6 ==> (bit_at(flipped(code, bit), position) != bit_at(code, position) <==> position
                + bit == 5),
{
    let after = flipped(code, bit);
    assert(after < 64 && (forall|position: u8|
        position < 6 ==> (bit_at(after, position) != bit_at(code, position) <==> position + bit
            == 5))) by (bit_vector)
        requires
            code < 64,
            bit < 6,
            after == code ^ (0b0010_0000u8 >> bit),
    ;
}

/// A child takes each of its six bits from one parent: below the crossover
/// point from `low`, from the point upwards from `high`.
pub proof fn lemma_splice_bits(high: u8, low: u8, point: u8)
    requires
        high < 64,
        low < 64,
        point <= 6,
    ensures
        splice(high, low, point) < 64,
        forall|position: u8|
            position < 6 ==> bit_at(splice(high, low, point), position) == if position < point {
                bit_at(low, position)
            } else {
                bit_at(high, position)
            },
{
    let child = splice(high, low, point);
    assert(child < 64 && (forall|position: u8|
        position < 6 ==> bit_at(child, position) == if position < point {
            bit_at(low, position)
        } else {
            bit_at(high, position)
        })) by (bit_vector)
        requires
            high < 64,
            low < 64,
            point <= 6,
            child == (high & !!(0xffu8 << point)) | (low & !(0xffu8 << point)),
    ;
}

/// At crossover point 3 a child has the first coordinate of one parent and
/// the second coordinate of the other.
pub proof fn lemma_splice_coordinates(high: u8, low: u8)
    requires
        high < 64,
        low < 64,
    ensures
        splice(high, low, 3) / 8 == high / 8,
        splice(high, low, 3) % 8 == low % 8,
{
    let child = splice(high, low, 3);
    assert(child / 8 == high / 8 && child % 8 == low % 8) by (bit_vector)
        requires
            high < 64,
            low < 64,
            child == (high & !!(0xffu8 << 3u8)) | (low & !(0xffu8 << 3u8)),
    ;
}

} // verus!
