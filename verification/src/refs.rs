//! Numbers for the document's indirect objects, fixed before any object is
//! described.

use vstd::prelude::*;

verus! {

/// The number of an indirect object.
#[derive(Clone, Copy, PartialEq, Eq, Debug, Structural)]
pub struct Ref(pub i32);

/// The numbers of the five objects that embed one font.
#[derive(Clone, Copy, PartialEq, Eq, Debug, Structural)]
pub struct FontRefs {
    /// The composite font.
    pub type0_font: Ref,
    /// Its descendant, the CID-keyed font.
    pub cid_font: Ref,
    /// The font descriptor.
    pub font_descriptor: Ref,
    /// The stream that maps glyphs back to codepoints.
    pub cmap: Ref,
    /// The stream that holds the font program.
    pub data: Ref,
}

/// How many objects of each class a document has.
pub struct Counts {
    pub pages: nat,
    pub fonts: nat,
    pub images: nat,
    pub alpha_masks: nat,
}

impl Counts {
    /// The number of the document catalog.
    pub open spec fn catalog(self) -> int {
        1
    }

    /// The number of the root of the page tree.
    pub open spec fn page_tree(self) -> int {
        2
    }

    /// The number of the first page object.
    pub open spec fn pages_start(self) -> int {
        3
    }

    /// The number of the first content stream.
    pub open spec fn contents_start(self) -> int {
        self.pages_start() + self.pages
    }

    /// The number of the first object of the first font.
    pub open spec fn fonts_start(self) -> int {
        self.contents_start() + self.pages
    }

    /// The number of the first image.
    pub open spec fn images_start(self) -> int {
        self.fonts_start() + 5 * self.fonts
    }

    /// The number of the first alpha mask.
    pub open spec fn alpha_masks_start(self) -> int {
        self.images_start() + self.images
    }

    /// The first number that no object has.
    pub open spec fn end(self) -> int {
        self.alpha_masks_start() + self.alpha_masks
    }

    /// The numbers of the page objects, in page order.
    pub open spec fn page_band(self) -> Seq<int> {
        Seq::new(self.pages, |k: int| self.pages_start() + k)
    }

    /// The numbers of the content streams, in page order.
    pub open spec fn content_band(self) -> Seq<int> {
        Seq::new(self.pages, |k: int| self.contents_start() + k)
    }

    /// The numbers of the font objects: five in a row for each font.
    pub open spec fn font_band(self) -> Seq<int> {
        Seq::new(5 * self.fonts, |k: int| self.fonts_start() + k)
    }

    /// The numbers of the images.
    pub open spec fn image_band(self) -> Seq<int> {
        Seq::new(self.images, |k: int| self.images_start() + k)
    }

    /// The numbers of the alpha masks.
    pub open spec fn alpha_mask_band(self) -> Seq<int> {
        Seq::new(self.alpha_masks, |k: int| self.alpha_masks_start() + k)
    }

    /// The five numbers of the font with index `k`.
    pub open spec fn font_refs(self, k: int) -> FontRefs {
        let first = self.fonts_start() + 5 * k;
        FontRefs {
            type0_font: Ref(first as i32),
            cid_font: Ref((first + 1) as i32),
            font_descriptor: Ref((first + 2) as i32),
            cmap: Ref((first + 3) as i32),
            data: Ref((first + 4) as i32),
        }
    }

    /// Every number that is given out: the catalog, the page tree, then the
    /// bands in their order.
    pub open spec fn all(self) -> Seq<int> {
        seq![self.catalog(), self.page_tree()] + self.page_band() + self.content_band()
            + self.font_band() + self.image_band() + self.alpha_mask_band()
    }

    /// The numbering is sound: taken in band order, the numbers are exactly
    /// `1`, `2`, up to the one before `end()`. So the bands start at 1, follow
    /// one another without a gap, and no two of them share a number.
    pub proof fn lemma_numbering_sound(self)
        ensures
            self.all() == Seq::new((self.end() - 1) as nat, |k: int| k + 1),
            self.all().no_duplicates(),
    {
        assert(self.all() =~= Seq::new((self.end() - 1) as nat, |k: int| k + 1));
    }

    /// The five numbers of a font are the five entries of its group in the
    /// font band.
    pub proof fn lemma_font_refs_in_band(self, k: int)
        requires
            0 <= k < self.fonts,
            self.end() <= i32::MAX,
        ensures
            self.font_refs(k).type0_font.0 == self.font_band()[5 * k],
            self.font_refs(k).cid_font.0 == self.font_band()[5 * k + 1],
            self.font_refs(k).font_descriptor.0 == self.font_band()[5 * k + 2],
            self.font_refs(k).cmap.0 == self.font_band()[5 * k + 3],
            self.font_refs(k).data.0 == self.font_band()[5 * k + 4],
    {
    }
}

/// The numbering of one document.
///
/// The view gives the counts that the numbering was made for; every number is
/// a function of them.
pub struct Refs {
    catalog: Ref,
    page_tree: Ref,
    pages_start: i32,
    contents_start: i32,
    fonts_start: i32,
    images_start: i32,
    alpha_masks_start: i32,
    end: i32,
}

impl View for Refs {
    type V = Counts;

    closed spec fn view(&self) -> Counts {
        Counts {
            pages: (self.contents_start - self.pages_start) as nat,
            fonts: ((self.images_start - self.fonts_start) / 5) as nat,
            images: (self.alpha_masks_start - self.images_start) as nat,
            alpha_masks: (self.end - self.alpha_masks_start) as nat,
        }
    }
}

impl Refs {
    #[verifier::type_invariant]
    spec fn consistent(self) -> bool {
        &&& self.catalog == Ref(1)
        &&& self.page_tree == Ref(2)
        &&& self.pages_start == 3
        &&& self.pages_start <= self.contents_start
        &&& self.fonts_start - self.contents_start == self.contents_start - self.pages_start
        &&& self.fonts_start <= self.images_start
        &&& (self.images_start - self.fonts_start) % 5 == 0
        &&& self.images_start <= self.alpha_masks_start
        &&& self.alpha_masks_start <= self.end
    }

    /// Numbers the objects of a document with the given counts, or returns
    /// `None` if the numbers do not fit the range of object numbers.
    pub fn new(pages: usize, fonts: usize, images: usize, alpha_masks: usize) -> (r: Option<Refs>)
        ensures
            r is Some <==> (Counts {
                pages: pages as nat,
                fonts: fonts as nat,
                images: images as nat,
                alpha_masks: alpha_masks as nat,
            }).end() <= i32::MAX,
            r is Some ==> r.unwrap()@ == (Counts {
                pages: pages as nat,
                fonts: fonts as nat,
                images: images as nat,
                alpha_masks: alpha_masks as nat,
            }),
    {
        let limit: usize = 0x7fff_ffff;
        if pages > limit || fonts > limit || images > limit || alpha_masks > limit {
            return None;
        }
        let total: u64 = 3 + 2 * (pages as u64) + 5 * (fonts as u64) + (images as u64) + (
        alpha_masks as u64);
        if total > limit as u64 {
            return None;
        }
        let catalog: i32 = 1;
        let page_tree: i32 = catalog + 1;
        let pages_start: i32 = page_tree + 1;
        let contents_start: i32 = pages_start + pages as i32;
        let fonts_start: i32 = contents_start + pages as i32;
        let images_start: i32 = fonts_start + (5 * fonts) as i32;
        let alpha_masks_start: i32 = images_start + images as i32;
        let end: i32 = alpha_masks_start + alpha_masks as i32;
        Some(
            Refs {
                catalog: Ref(catalog),
                page_tree: Ref(page_tree),
                pages_start,
                contents_start,
                fonts_start,
                images_start,
                alpha_masks_start,
                end,
            },
        )
    }

    /// The number of the document catalog.
    pub fn catalog(&self) -> (r: Ref)
        ensures
            r.0 == self@.catalog(),
    {
        proof {
            use_type_invariant(self);
        }
        self.catalog
    }

    /// The number of the root of the page tree.
    pub fn page_tree(&self) -> (r: Ref)
        ensures
            r.0 == self@.page_tree(),
    {
        proof {
            use_type_invariant(self);
        }
        self.page_tree
    }

    /// The first number that no object has; one more than the number of
    /// objects.
    pub fn end(&self) -> (r: i32)
        ensures
            r == self@.end(),
    {
        proof {
            use_type_invariant(self);
        }
        self.end
    }

    /// The numbers of the page objects, in page order.
    pub fn pages(&self) -> (r: Vec<Ref>)
        ensures
            r@.len() == self@.pages,
            forall|k: int| 0 <= k < r@.len() ==> (#[trigger] r@[k]).0 == self@.page_band()[k],
    {
        proof {
            use_type_invariant(self);
        }
        band(self.pages_start, self.contents_start)
    }

    /// The numbers of the content streams, in page order.
    pub fn contents(&self) -> (r: Vec<Ref>)
        ensures
            r@.len() == self@.pages,
            forall|k: int| 0 <= k < r@.len() ==> (#[trigger] r@[k]).0 == self@.content_band()[k],
    {
        proof {
            use_type_invariant(self);
        }
        band(self.contents_start, self.fonts_start)
    }

    /// The numbers of the font objects, one group for each font.
    pub fn fonts(&self) -> (r: Vec<FontRefs>)
        ensures
            r@.len() == self@.fonts,
            forall|k: int| 0 <= k < r@.len() ==> #[trigger] r@[k] == self@.font_refs(k),
    {
        proof {
            use_type_invariant(self);
        }
        let mut out: Vec<FontRefs> = Vec::new();
        let mut id: i32 = self.fonts_start;
        while id < self.images_start
            invariant
                self.fonts_start <= id <= self.images_start,
                (id - self.fonts_start) % 5 == 0,
                (self.images_start - self.fonts_start) % 5 == 0,
                self.fonts_start == self@.fonts_start(),
                out@.len() == (id - self.fonts_start) / 5,
                forall|k: int| 0 <= k < out@.len() ==> #[trigger] out@[k] == self@.font_refs(k),
            decreases self.images_start - id,
        {
            out.push(
                FontRefs {
                    type0_font: Ref(id),
                    cid_font: Ref(id + 1),
                    font_descriptor: Ref(id + 2),
                    cmap: Ref(id + 3),
                    data: Ref(id + 4),
                },
            );
            id = id + 5;
        }
        out
    }

    /// The numbers of the images.
    pub fn images(&self) -> (r: Vec<Ref>)
        ensures
            r@.len() == self@.images,
            forall|k: int| 0 <= k < r@.len() ==> (#[trigger] r@[k]).0 == self@.image_band()[k],
    {
        proof {
            use_type_invariant(self);
        }
        band(self.images_start, self.alpha_masks_start)
    }

    /// The number of the alpha mask with index `i`.
    pub fn alpha_mask(&self, i: usize) -> (r: Ref)
        requires
            i < self@.alpha_masks,
        ensures
            r.0 == self@.alpha_mask_band()[i as int],
    {
        proof {
            use_type_invariant(self);
        }
        Ref(self.alpha_masks_start + i as i32)
    }
}

/// The numbers from `start` up to, not including, `end`.
fn band(start: i32, end: i32) -> (r: Vec<Ref>)
    requires
        start <= end,
    ensures
        r@.len() == end - start,
        forall|k: int| 0 <= k < r@.len() ==> (#[trigger] r@[k]).0 == start + k,
{
    let mut out: Vec<Ref> = Vec::new();
    let mut id: i32 = start;
    while id < end
        invariant
            start <= id <= end,
            out@.len() == id - start,
            forall|k: int| 0 <= k < out@.len() ==> (#[trigger] out@[k]).0 == start + k,
        decreases end - id,
    {
        out.push(Ref(id));
        id = id + 1;
    }
    out
}

} // verus!
