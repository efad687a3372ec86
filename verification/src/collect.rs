//! What frames use: the fonts and images in the order in which they are first
//! met, the glyphs shown in each font, and the images that get a mask.

use crate::content::{element_resolves, page_resolves};
use crate::font::FontStore;
use crate::font_embed::{fonts_resolve, sets_view};
use crate::geom::Point;
use crate::image_encode::{alpha_count, image_at, images_resolve, lemma_alpha_before_push};
use crate::layout::{Element, FaceId, Frame, Glyph, ImageId};
use crate::raster::ImageStore;
use crate::refs::Counts;
use crate::remap::{lemma_position_bounds, position, record, Remapper};
use std::collections::HashMap;
use std::collections::HashSet;
use vstd::prelude::*;

verus! {

broadcast use vstd::std_specs::hash::group_hash_axioms;

/// The fonts and images that frames refer to.
#[derive(Clone, Debug)]
pub struct Context {
    pub fonts: FontStore,
    pub images: ImageStore,
}

/// Why frames cannot be exported.
#[derive(Clone, Copy, PartialEq, Eq, Debug, Structural)]
pub enum ExportError {
    /// A run of text names a face that the font store does not hold.
    UnknownFont(FaceId),
    /// An element names an image that the image store does not hold.
    UnknownImage(ImageId),
    /// The document would have more objects than there are object numbers.
    TooManyObjects,
}

/// What frames use: the faces and the images in the order in which they are
/// first met, and for each face the glyphs shown in it.
pub struct Usage {
    pub fonts: Seq<u32>,
    pub images: Seq<u32>,
    pub glyphs: Map<u32, Set<u16>>,
}

/// The numbers of the glyphs of a run.
pub open spec fn glyph_ids(glyphs: Seq<Glyph>) -> Set<u16> {
    Set::new(|id: u16| exists|i: int| 0 <= i < glyphs.len() && #[trigger] glyphs[i].id == id)
}

/// The glyphs shown in a face so far; none if the face is not in use.
pub open spec fn glyphs_of(glyphs: Map<u32, Set<u16>>, face: u32) -> Set<u16> {
    if glyphs.contains_key(face) {
        glyphs[face]
    } else {
        Set::empty()
    }
}

/// What is in use once an element has been looked at.
pub open spec fn use_element(usage: Usage, element: Element) -> Usage {
    match element {
        Element::Text(text) => Usage {
            fonts: record(usage.fonts, text.face_id.0),
            glyphs: usage.glyphs.insert(
                text.face_id.0,
                glyphs_of(usage.glyphs, text.face_id.0).union(glyph_ids(text.glyphs@)),
            ),
            ..usage
        },
        Element::Image(id, _) => Usage { images: record(usage.images, id.0), ..usage },
        _ => usage,
    }
}

/// What is in use once the first `n` of the elements have been looked at in
/// their order.
pub open spec fn use_elements(usage: Usage, elements: Seq<(Point, Element)>, n: int) -> Usage
    decreases n,
{
    if n <= 0 {
        usage
    } else {
        use_element(use_elements(usage, elements, n - 1), elements[n - 1].1)
    }
}

/// What the first `m` frames use.
pub open spec fn usage_upto(frames: Seq<Frame>, m: int) -> Usage
    decreases m,
{
    if m <= 0 {
        Usage { fonts: Seq::empty(), images: Seq::empty(), glyphs: Map::empty() }
    } else {
        use_elements(
            usage_upto(frames, m - 1),
            frames[m - 1].elements@,
            frames[m - 1].elements@.len() as int,
        )
    }
}

/// What frames use, looked at frame by frame and element by element.
pub open spec fn usage(frames: Seq<Frame>) -> Usage {
    usage_upto(frames, frames.len() as int)
}

/// What keeps an element from being exported.
pub open spec fn element_fault(ctx: Context, element: Element) -> Option<ExportError> {
    match element {
        Element::Text(text) => if ctx.fonts.has(text.face_id) {
            None
        } else {
            Some(ExportError::UnknownFont(text.face_id))
        },
        Element::Image(id, _) => if ctx.images.has(id) {
            None
        } else {
            Some(ExportError::UnknownImage(id))
        },
        _ => None,
    }
}

/// The fault of the first faulty element among the first `n`.
pub open spec fn elements_fault(ctx: Context, elements: Seq<(Point, Element)>, n: int) -> Option<
    ExportError,
>
    decreases n,
{
    if n <= 0 {
        None
    } else {
        match elements_fault(ctx, elements, n - 1) {
            Some(e) => Some(e),
            None => element_fault(ctx, elements[n - 1].1),
        }
    }
}

/// The fault of the first faulty element of the first `m` frames.
pub open spec fn frames_fault(ctx: Context, frames: Seq<Frame>, m: int) -> Option<ExportError>
    decreases m,
{
    if m <= 0 {
        None
    } else {
        match frames_fault(ctx, frames, m - 1) {
            Some(e) => Some(e),
            None => elements_fault(
                ctx,
                frames[m - 1].elements@,
                frames[m - 1].elements@.len() as int,
            ),
        }
    }
}

/// How many objects of each class the document for the frames has: a page
/// for each frame, and what the frames use.
pub open spec fn counts(ctx: Context, frames: Seq<Frame>) -> Counts {
    Counts {
        pages: frames.len(),
        fonts: usage(frames).fonts.len(),
        images: usage(frames).images.len(),
        alpha_masks: alpha_count(usage(frames).images, ctx.images),
    }
}

/// Why the frames cannot be exported, if they cannot: the fault of the first
/// faulty element, or, if no element is faulty, too many objects.
pub open spec fn export_error(ctx: Context, frames: Seq<Frame>) -> Option<ExportError> {
    match frames_fault(ctx, frames, frames.len() as int) {
        Some(e) => Some(e),
        None => if counts(ctx, frames).end() <= i32::MAX {
            None
        } else {
            Some(ExportError::TooManyObjects)
        },
    }
}

/// Whether the usage is one that looking at elements leads to: no face and
/// no image stands twice, and there is a set of glyphs for each face.
pub open spec fn usage_wf(usage: Usage) -> bool {
    &&& usage.fonts.no_duplicates()
    &&& usage.images.no_duplicates()
    &&& forall|k: int| 0 <= k < usage.fonts.len() ==> usage.glyphs.contains_key(
        #[trigger] usage.fonts[k],
    )
}

/// Looking at an element keeps the faces and images that were in use, at
/// their places, and adds what the element names.
pub proof fn lemma_use_element(usage: Usage, element: Element)
    requires
        usage_wf(usage),
    ensures
        usage_wf(use_element(usage, element)),
        usage.fonts.is_prefix_of(use_element(usage, element).fonts),
        usage.images.is_prefix_of(use_element(usage, element).images),
        element matches Element::Text(text) ==> use_element(usage, element).fonts.contains(
            text.face_id.0,
        ),
        element matches Element::Image(id, _) ==> use_element(usage, element).images.contains(
            id.0,
        ),
{
    let after = use_element(usage, element);
    match element {
        Element::Text(text) => {
            let face = text.face_id.0;
            if usage.fonts.contains(face) {
                lemma_position_bounds(usage.fonts, face);
            } else {
                assert(after.fonts[usage.fonts.len() as int] == face);
                lemma_push_distinct(usage.fonts, face);
            }
        },
        Element::Image(id, _) => {
            if !usage.images.contains(id.0) {
                assert(after.images[usage.images.len() as int] == id.0);
                lemma_push_distinct(usage.images, id.0);
            }
        },
        _ => {},
    }
}

/// A sequence without duplicates stays so when a new value is added.
pub proof fn lemma_push_distinct(ids: Seq<u32>, id: u32)
    requires
        ids.no_duplicates(),
        !ids.contains(id),
    ensures
        ids.push(id).no_duplicates(),
{
    let after = ids.push(id);
    assert forall|i: int, j: int|
        0 <= i < after.len() && 0 <= j < after.len() && i != j implies after[i] != after[j] by {
        if i < ids.len() {
            assert(ids.contains(ids[i]));
        }
        if j < ids.len() {
            assert(ids.contains(ids[j]));
        }
    }
}

/// The glyphs of a run with one glyph more.
proof fn lemma_glyph_ids_take(glyphs: Seq<Glyph>, i: int)
    requires
        0 <= i < glyphs.len(),
    ensures
        glyph_ids(glyphs.take(i + 1)) == glyph_ids(glyphs.take(i)).insert(glyphs[i].id),
{
    let more = glyph_ids(glyphs.take(i + 1));
    let fewer = glyph_ids(glyphs.take(i)).insert(glyphs[i].id);
    assert forall|id: u16| more.contains(id) <==> fewer.contains(id) by {
        if more.contains(id) {
            let j = choose|j: int|
                0 <= j < glyphs.take(i + 1).len() && #[trigger] glyphs.take(i + 1)[j].id == id;
            if j < i {
                assert(glyphs.take(i)[j].id == id);
            }
        }
        if fewer.contains(id) {
            if glyphs[i].id == id {
                assert(glyphs.take(i + 1)[i].id == id);
            } else {
                let j = choose|j: int|
                    0 <= j < glyphs.take(i).len() && #[trigger] glyphs.take(i)[j].id == id;
                assert(glyphs.take(i + 1)[j].id == id);
            }
        }
    }
    assert(more =~= fewer);
}

/// Adds the glyphs of a run to a set of glyphs.
fn add_glyphs(set: &mut HashSet<u16>, glyphs: &Vec<Glyph>)
    ensures
        final(set)@ == old(set)@.union(glyph_ids(glyphs@)),
{
    let mut i: usize = 0;
    assert(glyph_ids(glyphs@.take(0)) =~= Set::empty());
    assert(set@ =~= old(set)@.union(glyph_ids(glyphs@.take(0))));
    while i < glyphs.len()
        invariant
            i <= glyphs.len(),
            set@ == old(set)@.union(glyph_ids(glyphs@.take(i as int))),
        decreases glyphs.len() - i,
    {
        proof {
            lemma_glyph_ids_take(glyphs@, i as int);
        }
        set.insert(glyphs[i].id);
        assert(set@ =~= old(set)@.union(glyph_ids(glyphs@.take(i + 1))));
        i += 1;
    }
    assert(glyphs@.take(i as int) =~= glyphs@);
}

/// Gathers what frames use while it looks at their elements one by one.
pub struct Collector {
    /// The faces in use.
    pub font_map: Remapper,
    /// The images in use.
    pub image_map: Remapper,
    /// For each face in use, the glyphs shown in it.
    pub glyphs: HashMap<u32, HashSet<u16>>,
    /// How many of the images in use get a mask: those with an alpha channel
    /// and a buffer that fits their dimensions.
    pub alpha_masks: usize,
}

impl Collector {
    /// What is in use.
    pub open spec fn usage(&self) -> Usage {
        Usage { fonts: self.font_map@, images: self.image_map@, glyphs: sets_view(self.glyphs@) }
    }

    /// The collector is consistent, and the stores hold what is in use.
    pub open spec fn wf(&self, ctx: Context) -> bool {
        &&& self.font_map.wf()
        &&& self.image_map.wf()
        &&& usage_wf(self.usage())
        &&& fonts_resolve(self.font_map@, ctx.fonts)
        &&& images_resolve(self.image_map@, ctx.images)
        &&& self.alpha_masks == alpha_count(self.image_map@, ctx.images)
    }

    /// A collector that has seen nothing.
    pub fn new(ctx: &Context) -> (r: Collector)
        ensures
            r.wf(*ctx),
            r.usage() == usage_upto(Seq::empty(), 0),
    {
        let r = Collector {
            font_map: Remapper::new(),
            image_map: Remapper::new(),
            glyphs: HashMap::new(),
            alpha_masks: 0,
        };
        assert(sets_view(r.glyphs@) =~= Map::empty());
        r
    }

    /// Looks at one element. Returns its fault if it has one, and is then
    /// left as it was; otherwise records what the element uses.
    pub fn visit(&mut self, ctx: &Context, element: &Element) -> (fault: Option<ExportError>)
        requires
            old(self).wf(*ctx),
        ensures
            fault == element_fault(*ctx, *element),
            fault is None ==> final(self).wf(*ctx) && final(self).usage() == use_element(
                old(self).usage(),
                *element,
            ),
            fault is Some ==> *final(self) == *old(self),
    {
        proof {
            lemma_use_element(self.usage(), *element);
            self.font_map.lemma_distinct();
            self.image_map.lemma_distinct();
        }
        match element {
            Element::Text(text) => {
                let face = text.face_id;
                if !ctx.fonts.contains(face) {
                    return Some(ExportError::UnknownFont(face));
                }
                let ghost before = self.font_map@;
                let ghost sets = sets_view(self.glyphs@);
                self.font_map.insert(face.0);
                let mut set = match self.glyphs.remove(&face.0) {
                    Some(set) => set,
                    None => HashSet::new(),
                };
                assert(set@ =~= glyphs_of(sets, face.0));
                add_glyphs(&mut set, &text.glyphs);
                self.glyphs.insert(face.0, set);
                assert(sets_view(self.glyphs@) =~= use_element(
                    old(self).usage(),
                    *element,
                ).glyphs);
                assert forall|k: int| 0 <= k < self.font_map@.len() implies ctx.fonts.has(
                    FaceId(#[trigger] self.font_map@[k]),
                ) by {
                    if k < before.len() {
                        assert(self.font_map@[k] == before[k]);
                    }
                }
                None
            },
            Element::Image(id, _) => {
                if !ctx.images.contains(*id) {
                    return Some(ExportError::UnknownImage(*id));
                }
                let img = ctx.images.get(*id);
                if !self.image_map.contains(id.0) {
                    let ghost before = self.image_map@;
                    self.image_map.insert(id.0);
                    proof {
                        lemma_alpha_before_push(
                            before,
                            id.0,
                            ctx.images,
                            before.len() as int,
                        );
                        assert(self.image_map@[before.len() as int] == id.0);
                        assert(image_at(self.image_map@, ctx.images, before.len() as int)
                            == *img);
                        assert forall|k: int|
                            0 <= k < self.image_map@.len() implies ctx.images.has(
                            ImageId(#[trigger] self.image_map@[k]),
                        ) by {
                            if k < before.len() {
                                assert(self.image_map@[k] == before[k]);
                            }
                        }
                    }
                    let in_use: usize = self.image_map.len();
                    if img.layout.has_alpha() && img.is_well_formed() {
                        assert(self.alpha_masks < in_use);
                        self.alpha_masks = self.alpha_masks + 1;
                    }
                }
                None
            },
            _ => None,
        }
    }
}

/// What stands in a prefix of a sequence stands in the sequence.
proof fn lemma_prefix_contains(short: Seq<u32>, long: Seq<u32>, id: u32)
    requires
        short.is_prefix_of(long),
        short.contains(id),
    ensures
        long.contains(id),
{
    let k = choose|k: int| 0 <= k < short.len() && short[k] == id;
    assert(long[k] == id);
}

/// A prefix of a prefix is a prefix.
proof fn lemma_prefix_trans(a: Seq<u32>, b: Seq<u32>, c: Seq<u32>)
    requires
        a.is_prefix_of(b),
        b.is_prefix_of(c),
    ensures
        a.is_prefix_of(c),
{
    assert forall|k: int| 0 <= k < a.len() implies a[k] == c[k] by {
        assert(a[k] == b[k]);
        assert(b[k] == c[k]);
    }
    assert(a =~= c.subrange(0, a.len() as int));
}

/// Once the first `n` elements have been looked at and none of them is
/// faulty, what is in use holds what they name, and still holds at its place
/// what was in use before.
pub proof fn lemma_elements_covered(
    ctx: Context,
    before: Usage,
    elements: Seq<(Point, Element)>,
    n: int,
)
    requires
        usage_wf(before),
        0 <= n <= elements.len(),
        elements_fault(ctx, elements, n) is None,
    ensures
        usage_wf(use_elements(before, elements, n)),
        before.fonts.is_prefix_of(use_elements(before, elements, n).fonts),
        before.images.is_prefix_of(use_elements(before, elements, n).images),
        forall|b: int|
            0 <= b < n ==> element_resolves(
                (#[trigger] elements[b]).1,
                use_elements(before, elements, n).fonts,
                use_elements(before, elements, n).images,
                ctx.fonts,
            ),
    decreases n,
{
    if n > 0 {
        let earlier = use_elements(before, elements, n - 1);
        let after = use_elements(before, elements, n);
        lemma_elements_covered(ctx, before, elements, n - 1);
        lemma_use_element(earlier, elements[n - 1].1);
        lemma_prefix_trans(before.fonts, earlier.fonts, after.fonts);
        lemma_prefix_trans(before.images, earlier.images, after.images);
        assert forall|b: int| 0 <= b < n implies element_resolves(
            (#[trigger] elements[b]).1,
            after.fonts,
            after.images,
            ctx.fonts,
        ) by {
            if b < n - 1 {
                lemma_resolves_grows(elements[b].1, earlier, after, ctx.fonts);
            }
        }
    } else {
        assert(before.fonts =~= before.fonts.subrange(0, before.fonts.len() as int));
        assert(before.images =~= before.images.subrange(0, before.images.len() as int));
    }
}

/// An element whose names are in use stays so when more comes into use.
proof fn lemma_resolves_grows(element: Element, earlier: Usage, after: Usage, fonts: FontStore)
    requires
        earlier.fonts.is_prefix_of(after.fonts),
        earlier.images.is_prefix_of(after.images),
        element_resolves(element, earlier.fonts, earlier.images, fonts),
    ensures
        element_resolves(element, after.fonts, after.images, fonts),
{
    match element {
        Element::Text(text) => {
            lemma_prefix_contains(earlier.fonts, after.fonts, text.face_id.0);
        },
        Element::Image(id, _) => {
            lemma_prefix_contains(earlier.images, after.images, id.0);
        },
        _ => {},
    }
}

/// Once the first `m` frames have been looked at and none of their elements
/// is faulty, what is in use holds what every one of these frames names.
pub proof fn lemma_frames_covered(ctx: Context, frames: Seq<Frame>, m: int)
    requires
        0 <= m <= frames.len(),
        frames_fault(ctx, frames, m) is None,
    ensures
        usage_wf(usage_upto(frames, m)),
        forall|a: int|
            0 <= a < m ==> page_resolves(
                #[trigger] frames[a],
                usage_upto(frames, m).fonts,
                usage_upto(frames, m).images,
                ctx.fonts,
            ),
    decreases m,
{
    if m > 0 {
        let earlier = usage_upto(frames, m - 1);
        let after = usage_upto(frames, m);
        let last = frames[m - 1];
        lemma_frames_covered(ctx, frames, m - 1);
        lemma_elements_covered(ctx, earlier, last.elements@, last.elements@.len() as int);
        assert forall|a: int| 0 <= a < m implies page_resolves(
            #[trigger] frames[a],
            after.fonts,
            after.images,
            ctx.fonts,
        ) by {
            if a < m - 1 {
                assert forall|b: int| 0 <= b < frames[a].elements@.len() implies element_resolves(
                    (#[trigger] frames[a].elements@[b]).1,
                    after.fonts,
                    after.images,
                    ctx.fonts,
                ) by {
                    lemma_resolves_grows(frames[a].elements@[b].1, earlier, after, ctx.fonts);
                }
            }
        }
    }
}

/// The first fault among elements stays the first when more elements are
/// looked at.
pub proof fn lemma_elements_fault_stays(ctx: Context, elements: Seq<(Point, Element)>, n: int, more: int)
    requires
        n <= more,
        elements_fault(ctx, elements, n) is Some,
    ensures
        elements_fault(ctx, elements, more) == elements_fault(ctx, elements, n),
    decreases more - n,
{
    if n < more {
        lemma_elements_fault_stays(ctx, elements, n, more - 1);
    }
}

/// The first fault among frames stays the first when more frames are looked
/// at.
pub proof fn lemma_frames_fault_stays(ctx: Context, frames: Seq<Frame>, m: int, more: int)
    requires
        m <= more,
        frames_fault(ctx, frames, m) is Some,
    ensures
        frames_fault(ctx, frames, more) == frames_fault(ctx, frames, m),
    decreases more - m,
{
    if m < more {
        lemma_frames_fault_stays(ctx, frames, m, more - 1);
    }
}

} // verus!
