//! The TextGrid data model.
//!
//! A TextGrid is generic over the representation `N` of its numbers (times):
//! the text format keeps each number as the decimal text of its token
//! (`String`), the binary format keeps it as the IEEE-754 bit pattern of the
//! big-endian `f64` it stores (`u64`). Converting between these and a
//! floating-point value happens outside this library.
use vstd::prelude::*;

use crate::textbuf::chars_of;

verus! {

/// A TextGrid: a time domain and a sequence of tiers.
#[derive(Debug, Clone, PartialEq)]
pub struct TextGrid<N> {
    pub xmin: N,
    pub xmax: N,
    pub tiers: Vec<TextGridTier<N>>,
}

/// A tier of a TextGrid.
#[derive(Debug, Clone, PartialEq)]
pub enum TextGridTier<N> {
    IntervalTier(TextGridIntervalTier<N>),
    TextTier(TextGridTextTier<N>),
}

/// The class of a tier.
#[derive(Debug, Clone, Copy, PartialEq, Eq, Structural)]
pub enum TextGridTierKind {
    IntervalTier,
    TextTier,
}

/// A tier made of labelled intervals.
#[derive(Debug, Clone, PartialEq)]
pub struct TextGridIntervalTier<N> {
    pub name: String,
    pub xmin: N,
    pub xmax: N,
    pub intervals: Vec<TextGridInterval<N>>,
}

/// A labelled interval.
#[derive(Debug, Clone, PartialEq)]
pub struct TextGridInterval<N> {
    pub xmin: N,
    pub xmax: N,
    pub text: String,
}

/// A tier made of labelled points.
#[derive(Debug, Clone, PartialEq)]
pub struct TextGridTextTier<N> {
    pub name: String,
    pub xmin: N,
    pub xmax: N,
    pub points: Vec<TextGridPoint<N>>,
}

/// A labelled point.
#[derive(Debug, Clone, PartialEq)]
pub struct TextGridPoint<N> {
    pub number: N,
    pub mark: String,
}

/// The mathematical value of a TextGrid: strings become character sequences,
/// vectors become sequences, and numbers are taken by their view.
#[verifier::ext_equal]
pub struct GridModel<M> {
    pub xmin: M,
    pub xmax: M,
    pub tiers: Seq<TierModel<M>>,
}

/// The value of a tier.
#[verifier::ext_equal]
pub enum TierModel<M> {
    Interval { name: Seq<char>, xmin: M, xmax: M, intervals: Seq<IntervalModel<M>> },
    Text { name: Seq<char>, xmin: M, xmax: M, points: Seq<PointModel<M>> },
}

/// The value of an interval.
#[verifier::ext_equal]
pub struct IntervalModel<M> {
    pub xmin: M,
    pub xmax: M,
    pub text: Seq<char>,
}

/// The value of a point.
#[verifier::ext_equal]
pub struct PointModel<M> {
    pub number: M,
    pub mark: Seq<char>,
}

impl<N: View> View for TextGridInterval<N> {
    type V = IntervalModel<N::V>;

    open spec fn view(&self) -> IntervalModel<N::V> {
        IntervalModel { xmin: self.xmin@, xmax: self.xmax@, text: self.text@ }
    }
}

impl<N: View> View for TextGridPoint<N> {
    type V = PointModel<N::V>;

    open spec fn view(&self) -> PointModel<N::V> {
        PointModel { number: self.number@, mark: self.mark@ }
    }
}

/// The values of a vector of intervals.
pub open spec fn intervals_view<N: View>(v: Seq<TextGridInterval<N>>) -> Seq<IntervalModel<N::V>> {
    v.map_values(|i: TextGridInterval<N>| i@)
}

/// The values of a vector of points.
pub open spec fn points_view<N: View>(v: Seq<TextGridPoint<N>>) -> Seq<PointModel<N::V>> {
    v.map_values(|p: TextGridPoint<N>| p@)
}

impl<N: View> View for TextGridTier<N> {
    type V = TierModel<N::V>;

    open spec fn view(&self) -> TierModel<N::V> {
        match self {
            TextGridTier::IntervalTier(t) => TierModel::Interval {
                name: t.name@,
                xmin: t.xmin@,
                xmax: t.xmax@,
                intervals: intervals_view(t.intervals@),
            },
            TextGridTier::TextTier(t) => TierModel::Text {
                name: t.name@,
                xmin: t.xmin@,
                xmax: t.xmax@,
                points: points_view(t.points@),
            },
        }
    }
}

/// The values of a vector of tiers.
pub open spec fn tiers_view<N: View>(v: Seq<TextGridTier<N>>) -> Seq<TierModel<N::V>> {
    v.map_values(|t: TextGridTier<N>| t@)
}

impl<N: View> View for TextGrid<N> {
    type V = GridModel<N::V>;

    open spec fn view(&self) -> GridModel<N::V> {
        GridModel { xmin: self.xmin@, xmax: self.xmax@, tiers: tiers_view(self.tiers@) }
    }
}

impl<M> TierModel<M> {
    /// The class of this tier.
    pub open spec fn kind(self) -> TextGridTierKind {
        match self {
            TierModel::Interval { .. } => TextGridTierKind::IntervalTier,
            TierModel::Text { .. } => TextGridTierKind::TextTier,
        }
    }
}

impl<N> TextGridTier<N> {
    /// The class of this tier.
    pub fn text_grid_tier_kind(&self) -> (k: TextGridTierKind)
        ensures
            k == match self {
                TextGridTier::IntervalTier(_) => TextGridTierKind::IntervalTier,
                TextGridTier::TextTier(_) => TextGridTierKind::TextTier,
            },
    {
        match self {
            TextGridTier::IntervalTier(_) => TextGridTierKind::IntervalTier,
            TextGridTier::TextTier(_) => TextGridTierKind::TextTier,
        }
    }
}

/// The name of a tier class, as it stands in TextGrid files.
pub open spec fn kind_name(k: TextGridTierKind) -> Seq<char> {
    match k {
        TextGridTierKind::IntervalTier => "IntervalTier"@,
        TextGridTierKind::TextTier => "TextTier"@,
    }
}

/// The tier class whose name is the given character sequence, if any.
pub open spec fn kind_of_name(s: Seq<char>) -> Option<TextGridTierKind> {
    if s == "IntervalTier"@ {
        Some(TextGridTierKind::IntervalTier)
    } else if s == "TextTier"@ {
        Some(TextGridTierKind::TextTier)
    } else {
        None
    }
}

/// The bytes of an ASCII character sequence.
pub open spec fn ascii_bytes(s: Seq<char>) -> Seq<u8> {
    s.map_values(|c: char| (c as u32) as u8)
}

/// The bytes of the name of a tier class.
pub open spec fn kind_name_bytes(k: TextGridTierKind) -> Seq<u8> {
    ascii_bytes(kind_name(k))
}

/// The tier class whose name has the given bytes, if any.
pub open spec fn kind_of_name_bytes(b: Seq<u8>) -> Option<TextGridTierKind> {
    if b == kind_name_bytes(TextGridTierKind::IntervalTier) {
        Some(TextGridTierKind::IntervalTier)
    } else if b == kind_name_bytes(TextGridTierKind::TextTier) {
        Some(TextGridTierKind::TextTier)
    } else {
        None
    }
}

/// Bytes and characters of the two class names are distinct.
pub proof fn lemma_kind_names_distinct()
    ensures
        kind_name(TextGridTierKind::IntervalTier) != kind_name(TextGridTierKind::TextTier),
        kind_name_bytes(TextGridTierKind::IntervalTier) != kind_name_bytes(
            TextGridTierKind::TextTier,
        ),
        kind_name(TextGridTierKind::IntervalTier).len() == 12,
        kind_name(TextGridTierKind::TextTier).len() == 8,
        kind_name_bytes(TextGridTierKind::IntervalTier).len() == 12,
        kind_name_bytes(TextGridTierKind::TextTier).len() == 8,
{
    reveal_strlit("IntervalTier");
    reveal_strlit("TextTier");
    assert(kind_name(TextGridTierKind::IntervalTier).len() != kind_name(
        TextGridTierKind::TextTier,
    ).len());
    assert(kind_name_bytes(TextGridTierKind::IntervalTier).len() != kind_name_bytes(
        TextGridTierKind::TextTier,
    ).len());
}

fn byte_eq(a: &[u8], b: &[u8]) -> (r: bool)
    ensures
        r == (a@ == b@),
{
    if a.len() != b.len() {
        return false;
    }
    let mut i: usize = 0;
    while i < a.len()
        invariant
            a@.len() == b@.len(),
            i <= a@.len(),
            forall|j: int| 0 <= j < i ==> a@[j] == b@[j],
        decreases a@.len() - i,
    {
        if a[i] != b[i] {
            return false;
        }
        i = i + 1;
    }
    assert(a@ =~= b@);
    true
}

impl TextGridTierKind {
    /// The tier class named by `s`, if any.
    pub fn from_str(s: &str) -> (r: Option<Self>)
        ensures
            r == kind_of_name(s@),
    {
        let cs = chars_of(s);
        let interval = chars_of("IntervalTier");
        let text = chars_of("TextTier");
        if crate::textbuf::chars_eq(cs.as_slice(), interval.as_slice()) {
            Some(TextGridTierKind::IntervalTier)
        } else if crate::textbuf::chars_eq(cs.as_slice(), text.as_slice()) {
            Some(TextGridTierKind::TextTier)
        } else {
            None
        }
    }

    /// The name of this tier class.
    pub fn as_str(&self) -> (r: &'static str)
        ensures
            r@ == kind_name(*self),
    {
        match self {
            TextGridTierKind::IntervalTier => "IntervalTier",
            TextGridTierKind::TextTier => "TextTier",
        }
    }

    /// The tier class whose name has the bytes `bytes`, if any.
    pub fn from_bytes(bytes: &[u8]) -> (r: Option<Self>)
        ensures
            r == kind_of_name_bytes(bytes@),
    {
        if byte_eq(bytes, TextGridTierKind::IntervalTier.as_bytes()) {
            Some(TextGridTierKind::IntervalTier)
        } else if byte_eq(bytes, TextGridTierKind::TextTier.as_bytes()) {
            Some(TextGridTierKind::TextTier)
        } else {
            None
        }
    }

    /// The bytes of the name of this tier class.
    pub fn as_bytes(&self) -> (r: &'static [u8])
        ensures
            r@ == kind_name_bytes(*self),
    {
        let s = self.as_str();
        proof {
            reveal_strlit("IntervalTier");
            reveal_strlit("TextTier");
            vstd::string::is_ascii_spec_bytes(s);
        }
        let b = s.as_bytes();
        assert(b@ =~= kind_name_bytes(*self));
        b
    }
}

/// Parsing the name of a tier class gives the class back, for characters and bytes.
pub proof fn lemma_kind_name_round_trip(k: TextGridTierKind)
    ensures
        kind_of_name(kind_name(k)) == Some(k),
        kind_of_name_bytes(kind_name_bytes(k)) == Some(k),
{
    lemma_kind_names_distinct();
}

} // verus!
