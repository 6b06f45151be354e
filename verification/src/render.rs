//! The course of one light path, and the text around the pixels of an
//! image.

use vstd::prelude::*;
use vstd::arithmetic::div_mod::{lemma_div_by_multiple, lemma_div_is_ordered};
use vstd::string::StringExecFns;
use crate::decimal::{numeral, push_numeral};
use crate::scalar::Scalar;
use crate::vec3::{Color, Vec3};

verus! {

/// The pattern of 0.001, the least parameter at which a ray may hit. A
/// scattered ray starts on a surface, and rounding may put its origin just
/// beneath: a hit any closer than this is the surface it left.
pub const T_MIN_BITS: u32 = 0x3a83_126f;

/// What happened to a ray that was cast into the scene.
#[derive(Clone, Copy, Debug, PartialEq, Eq, Structural)]
pub enum Bounce {
    /// It met no surface.
    Miss,
    /// It met a surface whose material took it in.
    Absorbed,
    /// It met a surface whose material sent it on, tinted by this
    /// attenuation.
    Scattered(Color),
}

/// How a light path came to its end.
#[derive(Clone, Copy, Debug, PartialEq, Eq, Structural)]
pub enum Ending {
    /// The depth ran out: the path carries no light.
    Exhausted,
    /// A material absorbed the ray: the path carries no light.
    Absorbed,
    /// The ray left the scene: the path carries the light of the sky in
    /// the direction of its last ray.
    Sky,
}

/// The colour of no light: (0, 0, 0).
pub open spec fn black() -> Color {
    Vec3 { x: Scalar { bits: 0 }, y: Scalar { bits: 0 }, z: Scalar { bits: 0 } }
}

impl Ending {
    /// The light at the end of a path: black where the path ended in the
    /// dark, and nothing for the sky, whose colour the caller computes from
    /// the direction of the last ray.
    pub fn light(self) -> (light: Option<Color>)
        ensures
            light == match self {
                Ending::Exhausted => Some(black()),
                Ending::Absorbed => Some(black()),
                Ending::Sky => None,
            },
    {
        match self {
            Ending::Sky => None,
            _ => Some(Vec3::new(Scalar::zero(), Scalar::zero(), Scalar::zero())),
        }
    }
}

/// A light path, followed from the camera one bounce at a time.
///
/// The light it carries is the light of its ending, multiplied by each of
/// its attenuations, the last one first.
pub struct Path {
    remaining: u32,
    attenuations: Vec<Color>,
    stopped: Option<Ending>,
}

impl Path {
    /// The number of rays that may still be cast.
    pub closed spec fn depth(self) -> nat {
        self.remaining as nat
    }

    /// The attenuations of the bounces so far, the first bounce first.
    pub closed spec fn tints(self) -> Seq<Color> {
        self.attenuations@
    }

    /// The ending of the path, once it has one.
    pub closed spec fn end(self) -> Option<Ending> {
        match self.stopped {
            Some(ending) => Some(ending),
            None => if self.remaining == 0 {
                Some(Ending::Exhausted)
            } else {
                None
            },
        }
    }

    /// The path after one more ray was cast with the given outcome. A path
    /// that has ended stays as it is. On an open path a miss ends it in
    /// the sky and an absorption ends it in the dark; a scattering adds
    /// its attenuation and uses up one unit of depth, and ends the path
    /// where that was the last.
    pub open spec fn follows(self, before: Path, bounce: Bounce) -> bool {
        match before.end() {
            Some(_) => {
                &&& self.end() == before.end()
                &&& self.tints() == before.tints()
                &&& self.depth() == before.depth()
            },
            None => match bounce {
                Bounce::Miss => {
                    &&& self.end() == Some(Ending::Sky)
                    &&& self.tints() == before.tints()
                    &&& self.depth() == before.depth()
                },
                Bounce::Absorbed => {
                    &&& self.end() == Some(Ending::Absorbed)
                    &&& self.tints() == before.tints()
                    &&& self.depth() == before.depth()
                },
                Bounce::Scattered(attenuation) => {
                    &&& self.end() == if before.depth() == 1 {
                        Some(Ending::Exhausted)
                    } else {
                        None
                    }
                    &&& self.tints() == before.tints().push(attenuation)
                    &&& self.depth() == before.depth() - 1
                },
            },
        }
    }

    /// Starts a path that may cast `depth` rays. With no depth at all the
    /// path has ended before its first ray, whatever the scene holds, and
    /// carries no light.
    pub fn new(depth: u32) -> (path: Path)
        ensures
            path.depth() == depth,
            path.tints() == Seq::<Color>::empty(),
            path.end() == if depth == 0 {
                Some(Ending::Exhausted)
            } else {
                None
            },
    {
        Path { remaining: depth, attenuations: Vec::new(), stopped: None }
    }

    /// Whether the next ray is still to be cast. An open path has depth
    /// left.
    pub fn is_open(&self) -> (open: bool)
        ensures
            open == self.end().is_none(),
            open ==> self.depth() > 0,
    {
        self.stopped.is_none() && self.remaining > 0
    }

    /// The number of rays that may still be cast.
    pub fn remaining(&self) -> (depth: u32)
        ensures
            depth == self.depth(),
    {
        self.remaining
    }

    /// The attenuations of the bounces so far, the first bounce first.
    pub fn attenuations(&self) -> (tints: &Vec<Color>)
        ensures
            tints@ == self.tints(),
    {
        &self.attenuations
    }

    /// The ending of the path, once it has one.
    pub fn ending(&self) -> (ending: Option<Ending>)
        ensures
            ending == self.end(),
    {
        match self.stopped {
            Some(ending) => Some(ending),
            None => if self.remaining == 0 {
                Some(Ending::Exhausted)
            } else {
                None
            },
        }
    }

    /// Records the outcome of the ray that was cast last. The bounces and
    /// the depth left always add up to the depth the path started with.
    pub fn bounce(&mut self, bounce: Bounce)
        ensures
            final(self).follows(*old(self), bounce),
            final(self).tints().len() + final(self).depth() == old(self).tints().len() + old(
                self,
            ).depth(),
    {
        if self.stopped.is_none() && self.remaining > 0 {
            match bounce {
                Bounce::Miss => {
                    self.stopped = Some(Ending::Sky);
                },
                Bounce::Absorbed => {
                    self.stopped = Some(Ending::Absorbed);
                },
                Bounce::Scattered(attenuation) => {
                    self.attenuations.push(attenuation);
                    self.remaining = self.remaining - 1;
                },
            }
        }
    }
}

/// The text that opens a plain-text image of the given size.
pub open spec fn header_text(image_width: u32, image_height: u32) -> Seq<char> {
    seq!['P', '3', '\n'] + numeral(image_width as nat) + seq![' '] + numeral(image_height as nat)
        + seq!['\n', '2', '5', '5']
}

/// The header of a plain-text image: the format's mark, the width and the
/// height, and 255 as the greatest display value.
pub fn header(image_width: u32, image_height: u32) -> (text: String)
    ensures
        text@ == header_text(image_width, image_height),
{
    let mut text = String::from_str("P3\n");
    push_numeral(&mut text, image_width);
    text.append(" ");
    push_numeral(&mut text, image_height);
    text.append("\n255");
    proof {
        reveal_strlit("P3\n");
        reveal_strlit(" ");
        reveal_strlit("\n255");
        assert(text@ =~= header_text(image_width, image_height));
    }
    text
}

/// The share of the image that is done when row `y` is begun, in whole
/// percent. Rows are rendered from the top, `image_height - 1`, down to 0,
/// and the row begun counts as done.
pub open spec fn percent_done(image_height: u32, y: u32) -> int {
    100 * (image_height - y) / (image_height as int)
}

/// Computes the progress to show when row `y` is begun.
pub fn progress(image_height: u32, y: u32) -> (percent: u32)
    requires
        y < image_height,
    ensures
        percent == percent_done(image_height, y),
        percent <= 100,
{
    let done: u64 = (image_height - y) as u64;
    let total: u64 = image_height as u64;
    proof {
        lemma_div_is_ordered(100 * done, 100 * total, total as int);
        lemma_div_by_multiple(100, total as int);
    }
    let percent: u64 = 100 * done / total;
    percent as u32
}

/// Progress never goes back: a row begun later shows at least the share
/// of a row begun earlier.
pub proof fn lemma_progress_grows(image_height: u32, earlier: u32, later: u32)
    requires
        later <= earlier < image_height,
    ensures
        percent_done(image_height, earlier) <= percent_done(image_height, later),
{
    lemma_div_is_ordered(
        100 * (image_height - earlier),
        100 * (image_height - later),
        image_height as int,
    );
}

} // verus!
