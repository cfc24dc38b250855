//! The colours that tell the pods apart.

use vstd::prelude::*;

verus! {

/// A colour of the terminal.
#[derive(Debug, Clone, Copy, PartialEq, Eq, Structural)]
pub enum Color {
    Red,
    Green,
    Blue,
    Cyan,
    Magenta,
    Yellow,
    White,
}

/// How many colours there are to give out.
pub const PALETTE_LEN: usize = 7;

/// The colours in the order in which they are given out.
pub open spec fn palette() -> Seq<Color> {
    seq![
        Color::Red,
        Color::Green,
        Color::Blue,
        Color::Cyan,
        Color::Magenta,
        Color::Yellow,
        Color::White,
    ]
}

/// The colour that the pod at place `n` gets: the colours are given out in
/// the order of the palette, which starts again after its last colour.
pub open spec fn nth_color(n: nat) -> Color {
    palette()[(n as int) % (PALETTE_LEN as int)]
}

/// The hash that `DefaultHasher::new` gives for a text. It is the same for
/// the same text wherever this build of the library runs.
pub uninterp spec fn text_hash(text: Seq<char>) -> u64;

/// `BuildHasher::hash_one` with a `DefaultHasher`: feeds `text` to a new
/// hasher, whose keys are fixed, and takes what it gives.
#[verifier::external_body]
fn hash_text(text: &str) -> (hash: u64)
    ensures
        hash == text_hash(text@),
{
    let hashers: std::hash::BuildHasherDefault<std::collections::hash_map::DefaultHasher> =
        Default::default();
    std::hash::BuildHasher::hash_one(&hashers, text)
}

/// Color generator for assigning colors to pods
pub struct ColorGenerator {
    /// Current color index
    current_index: usize,
    /// Available colors
    colors: Vec<Color>,
}

impl ColorGenerator {
    #[verifier::type_invariant]
    spec fn well_formed(self) -> bool {
        self.colors@ == palette() && self.current_index < PALETTE_LEN
    }

    /// The place in the palette of the colour that is given out next.
    pub closed spec fn position(&self) -> nat {
        self.current_index as nat
    }

    /// Create a new color generator, which starts at the first colour.
    pub fn new() -> (g: Self)
        ensures
            g.position() == 0,
    {
        let mut colors: Vec<Color> = Vec::new();
        colors.push(Color::Red);
        colors.push(Color::Green);
        colors.push(Color::Blue);
        colors.push(Color::Cyan);
        colors.push(Color::Magenta);
        colors.push(Color::Yellow);
        colors.push(Color::White);
        assert(colors@ == palette());
        Self { current_index: 0, colors }
    }

    /// How many colours the generator goes through before it starts again.
    pub fn palette_len(&self) -> (n: usize)
        ensures
            n == PALETTE_LEN,
    {
        proof {
            use_type_invariant(self);
        }
        self.colors.len()
    }

    /// Get the next color in the sequence, which starts again after the
    /// last colour.
    pub fn next_color(&mut self) -> (color: Color)
        ensures
            old(self).position() < PALETTE_LEN,
            color == nth_color(old(self).position()),
            final(self).position() == (old(self).position() + 1) % (PALETTE_LEN as nat),
    {
        proof {
            use_type_invariant(&*self);
        }
        let color = self.colors[self.current_index];
        self.current_index = (self.current_index + 1) % self.colors.len();
        color
    }

    /// The colour that stands for a hash.
    pub fn color_for_hash(&self, hash: u64) -> (color: Color)
        ensures
            color == nth_color(hash as nat),
    {
        proof {
            use_type_invariant(self);
        }
        self.colors[(hash % (self.colors.len() as u64)) as usize]
    }

    /// Get a color based on a string hash
    pub fn color_for_string(&self, s: &str) -> (color: Color)
        ensures
            color == nth_color(text_hash(s@) as nat),
    {
        self.color_for_hash(hash_text(s))
    }
}

} // verus!
