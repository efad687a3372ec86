//! The export as a whole: the description of all objects of a document.

use crate::collect::{
    counts, export_error, frames_fault, lemma_elements_fault_stays, lemma_frames_covered,
    lemma_frames_fault_stays, usage, usage_upto, usage_wf, use_elements, elements_fault,
    Collector, Context, ExportError, Usage,
};
use crate::content::{ops_view, page_ops, page_resolves, write_page, Op};
use crate::font::{FontFace, FontStore};
use crate::font_embed::{
    font_object, fonts_resolve, sets_view, subsets_view, write_fonts, FontObject,
};
use crate::geom::{Length, Point};
use crate::image_encode::{image_object, images_resolve, write_images, ImageObject};
use crate::layout::{Element, FaceId, Frame};
use crate::raster::ImageStore;
use crate::refs::{Counts, Ref, Refs};
use crate::remap::Remapper;
use std::collections::HashMap;
use std::collections::HashSet;
use vstd::prelude::*;

verus! {

/// What an export works with once it has looked at all frames: the numbers of
/// all objects, and what the frames use.
pub struct PdfExporter<'a> {
    pub refs: Refs,
    pub frames: &'a [Frame],
    pub fonts: &'a FontStore,
    pub images: &'a ImageStore,
    pub glyphs: HashMap<u32, HashSet<u16>>,
    pub font_map: Remapper,
    pub image_map: Remapper,
}

impl<'a> PdfExporter<'a> {
    /// The stores that the export reads.
    pub open spec fn ctx(&self) -> Context {
        Context { fonts: *self.fonts, images: *self.images }
    }

    /// The export has looked at all its frames and found no fault, holds what
    /// they use, and has numbered the objects of their document.
    pub open spec fn wf(&self) -> bool {
        &&& self.font_map.wf()
        &&& self.image_map.wf()
        &&& frames_fault(self.ctx(), self.frames@, self.frames@.len() as int) is None
        &&& usage(self.frames@) == (Usage {
            fonts: self.font_map@,
            images: self.image_map@,
            glyphs: sets_view(self.glyphs@),
        })
        &&& usage_wf(usage(self.frames@))
        &&& fonts_resolve(self.font_map@, *self.fonts)
        &&& images_resolve(self.image_map@, *self.images)
        &&& self.refs@ == counts(self.ctx(), self.frames@)
        &&& forall|k: int|
            0 <= k < self.frames@.len() ==> page_resolves(
                #[trigger] self.frames@[k],
                self.font_map@,
                self.image_map@,
                *self.fonts,
            )
    }

    /// Looks at all elements of all frames, frame by frame, and numbers the
    /// objects of the document. Fails with the fault of the first faulty
    /// element, or, if there is none, if the objects cannot be numbered.
    pub fn new(ctx: &'a Context, frames: &'a [Frame]) -> (r: Result<PdfExporter<'a>, ExportError>)
        ensures
            match r {
                Ok(exporter) => export_error(*ctx, frames@) is None && exporter.wf()
                    && exporter.frames@ == frames@ && exporter.ctx() == *ctx,
                Err(e) => export_error(*ctx, frames@) == Some(e),
            },
    {
        let mut collector = Collector::new(ctx);
        let mut i: usize = 0;
        while i < frames.len()
            invariant
                i <= frames.len(),
                collector.wf(*ctx),
                collector.usage() == usage_upto(frames@, i as int),
                frames_fault(*ctx, frames@, i as int) is None,
            decreases frames.len() - i,
        {
            let frame = &frames[i];
            let mut j: usize = 0;
            while j < frame.elements.len()
                invariant
                    i < frames.len(),
                    *frame == frames@[i as int],
                    j <= frame.elements.len(),
                    collector.wf(*ctx),
                    collector.usage() == use_elements(
                        usage_upto(frames@, i as int),
                        frame.elements@,
                        j as int,
                    ),
                    frames_fault(*ctx, frames@, i as int) is None,
                    elements_fault(*ctx, frame.elements@, j as int) is None,
                decreases frame.elements.len() - j,
            {
                match collector.visit(ctx, &frame.elements[j].1) {
                    Some(e) => {
                        proof {
                            lemma_elements_fault_stays(
                                *ctx,
                                frame.elements@,
                                j + 1,
                                frame.elements@.len() as int,
                            );
                            lemma_frames_fault_stays(*ctx, frames@, i + 1, frames@.len() as int);
                        }
                        return Err(e);
                    },
                    None => {},
                }
                j += 1;
            }
            i += 1;
        }
        proof {
            lemma_frames_covered(*ctx, frames@, frames@.len() as int);
        }
        match Refs::new(
            frames.len(),
            collector.font_map.len(),
            collector.image_map.len(),
            collector.alpha_masks,
        ) {
            Some(refs) => Ok(
                PdfExporter {
                    refs,
                    frames,
                    fonts: &ctx.fonts,
                    images: &ctx.images,
                    glyphs: collector.glyphs,
                    font_map: collector.font_map,
                    image_map: collector.image_map,
                },
            ),
            None => Err(ExportError::TooManyObjects),
        }
    }
}

/// The decimal digits of a number, as bytes.
pub open spec fn decimal(n: nat) -> Seq<u8>
    decreases n,
{
    if n < 10 {
        seq![(48 + n) as u8]
    } else {
        decimal(n / 10).push((48 + n % 10) as u8)
    }
}

/// The name of the font with index `index` among the resources of the pages:
/// `F` and the index.
pub open spec fn font_resource_name(index: nat) -> Seq<u8> {
    seq![70u8] + decimal(index)
}

/// The name of the image with index `index` among the resources of the
/// pages: `Im` and the index.
pub open spec fn image_resource_name(index: nat) -> Seq<u8> {
    seq![73u8, 109u8] + decimal(index)
}

/// Different numbers have different digits.
pub proof fn lemma_decimal_distinct(a: nat, b: nat)
    requires
        decimal(a) == decimal(b),
    ensures
        a == b,
    decreases a,
{
    lemma_decimal_len(a);
    lemma_decimal_len(b);
    if a >= 10 && b >= 10 {
        let front_a = decimal(a / 10);
        let front_b = decimal(b / 10);
        assert(decimal(a).last() == (48 + a % 10) as u8);
        assert(decimal(b).last() == (48 + b % 10) as u8);
        assert(decimal(a).drop_last() =~= front_a);
        assert(decimal(b).drop_last() =~= front_b);
        lemma_decimal_distinct(a / 10, b / 10);
    } else if a < 10 && b < 10 {
        assert(decimal(a)[0] == (48 + a) as u8);
        assert(decimal(b)[0] == (48 + b) as u8);
    } else if a >= 10 {
        lemma_decimal_len(a / 10);
    } else {
        lemma_decimal_len(b / 10);
    }
}

/// A number has at least one digit; a number below ten has exactly one.
pub proof fn lemma_decimal_len(n: nat)
    ensures
        decimal(n).len() >= 1,
        n < 10 ==> decimal(n).len() == 1,
        n >= 10 ==> decimal(n).len() >= 2,
    decreases n,
{
    if n >= 10 {
        lemma_decimal_len(n / 10);
    }
}

/// Resource names do not collide: two fonts with different indices have
/// different names, and so have two images.
pub proof fn lemma_resource_names_distinct(i: nat, j: nat)
    requires
        i != j,
    ensures
        font_resource_name(i) != font_resource_name(j),
        image_resource_name(i) != image_resource_name(j),
{
    if font_resource_name(i) == font_resource_name(j) {
        assert(font_resource_name(i).subrange(1, font_resource_name(i).len() as int) =~= decimal(
            i,
        ));
        assert(font_resource_name(j).subrange(1, font_resource_name(j).len() as int) =~= decimal(
            j,
        ));
        lemma_decimal_distinct(i, j);
    }
    if image_resource_name(i) == image_resource_name(j) {
        assert(image_resource_name(i).subrange(2, image_resource_name(i).len() as int)
            =~= decimal(i));
        assert(image_resource_name(j).subrange(2, image_resource_name(j).len() as int)
            =~= decimal(j));
        lemma_decimal_distinct(i, j);
    }
}

/// Appends the decimal digits of a number.
fn push_decimal(out: &mut Vec<u8>, n: usize)
    ensures
        final(out)@ == old(out)@ + decimal(n as nat),
    decreases n,
{
    if n >= 10 {
        push_decimal(out, n / 10);
    }
    out.push(48 + (n % 10) as u8);
    assert(out@ =~= old(out)@ + decimal(n as nat));
}

/// The name of the font with the given index among the resources.
pub fn font_resource(index: usize) -> (name: Vec<u8>)
    ensures
        name@ == font_resource_name(index as nat),
{
    let mut name: Vec<u8> = Vec::new();
    name.push(70);
    push_decimal(&mut name, index);
    assert(name@ =~= font_resource_name(index as nat));
    name
}

/// The name of the image with the given index among the resources.
pub fn image_resource(index: usize) -> (name: Vec<u8>)
    ensures
        name@ == image_resource_name(index as nat),
{
    let mut name: Vec<u8> = Vec::new();
    name.push(73);
    name.push(109);
    push_decimal(&mut name, index);
    assert(name@ =~= image_resource_name(index as nat));
    name
}

/// An entry of a resource dictionary: a name and the object it stands for.
#[derive(Clone, Debug)]
pub struct Resource {
    pub name: Vec<u8>,
    pub id: Ref,
}

/// A region of a page that follows a link when it is clicked: a rectangle in
/// page space by its lower left and upper right corner, and a URI.
#[derive(Clone, Debug)]
pub struct LinkAnnotation {
    pub x1: i64,
    pub y1: i64,
    pub x2: i64,
    pub y2: i64,
    pub uri: String,
}

/// What a `LinkAnnotation` stands for.
pub struct LinkView {
    pub x1: int,
    pub y1: int,
    pub x2: int,
    pub y2: int,
    pub uri: Seq<char>,
}

impl View for LinkAnnotation {
    type V = LinkView;

    open spec fn view(&self) -> LinkView {
        LinkView {
            x1: self.x1 as int,
            y1: self.y1 as int,
            x2: self.x2 as int,
            y2: self.y2 as int,
            uri: self.uri@,
        }
    }
}

/// The views of a sequence of link annotations.
pub open spec fn links_view(links: Seq<LinkAnnotation>) -> Seq<LinkView> {
    links.map_values(|link: LinkAnnotation| link@)
}

/// A page object.
#[derive(Clone, Debug)]
pub struct PageObject {
    /// The number of the object.
    pub id: Ref,
    /// The number of the page tree that holds the page.
    pub parent: Ref,
    /// The width of the media box, whose lower left corner is the origin.
    pub width: Length,
    /// The height of the media box.
    pub height: Length,
    /// The links on the page.
    pub links: Vec<LinkAnnotation>,
    /// The number of the content stream of the page.
    pub contents: Ref,
}

/// What a `PageObject` stands for.
pub struct PageView {
    pub id: Ref,
    pub parent: Ref,
    pub width: Length,
    pub height: Length,
    pub links: Seq<LinkView>,
    pub contents: Ref,
}

impl View for PageObject {
    type V = PageView;

    open spec fn view(&self) -> PageView {
        PageView {
            id: self.id,
            parent: self.parent,
            width: self.width,
            height: self.height,
            links: links_view(self.links@),
            contents: self.contents,
        }
    }
}

/// The region of a link of the given size whose top left corner is at `pos`
/// in layout space, on a page of the given height.
pub open spec fn link_view(height: Length, pos: Point, uri: Seq<char>, w: int, h: int) -> LinkView {
    let x = pos.x.0 as int;
    let y = height.0 - pos.y.0;
    LinkView { x1: x, y1: y - h, x2: x + w, y2: y, uri }
}

/// The links among the first `n` elements of a page, in their order.
pub open spec fn page_links(page: Frame, n: int) -> Seq<LinkView>
    decreases n,
{
    if n <= 0 {
        Seq::empty()
    } else {
        match page.elements@[n - 1].1 {
            Element::Link(href, size) => page_links(page, n - 1).push(
                link_view(
                    page.size.h,
                    page.elements@[n - 1].0,
                    href@,
                    size.w.0 as int,
                    size.h.0 as int,
                ),
            ),
            _ => page_links(page, n - 1),
        }
    }
}

/// The page object for the frame at place `k`.
pub open spec fn page_object(counts: Counts, page: Frame, k: int) -> PageView {
    PageView {
        id: Ref(counts.page_band()[k] as i32),
        parent: Ref(counts.page_tree() as i32),
        width: page.size.w,
        height: page.size.h,
        links: page_links(page, page.elements@.len() as int),
        contents: Ref(counts.content_band()[k] as i32),
    }
}

/// The catalog, the page tree with the resources that all pages share, and
/// the page objects.
#[derive(Clone, Debug)]
pub struct Structure {
    /// The number of the catalog, the root of the document.
    pub catalog: Ref,
    /// The number of the page tree, to which the catalog refers.
    pub page_tree: Ref,
    /// The numbers of the pages, in their order.
    pub kids: Vec<Ref>,
    /// The composite font of each font in use, under its resource name.
    pub fonts: Vec<Resource>,
    /// The image object of each image in use, under its resource name.
    pub images: Vec<Resource>,
    /// The page objects.
    pub pages: Vec<PageObject>,
}

impl Structure {
    /// Whether this is the structure of the document with the given counts
    /// for the given frames.
    pub open spec fn describes(&self, counts: Counts, frames: Seq<Frame>) -> bool {
        &&& self.catalog == Ref(1)
        &&& self.page_tree == Ref(2)
        &&& self.kids@.len() == frames.len()
        &&& forall|k: int|
            0 <= k < self.kids@.len() ==> #[trigger] self.kids@[k] == Ref(
                counts.page_band()[k] as i32,
            )
        &&& self.fonts@.len() == counts.fonts
        &&& forall|k: int|
            0 <= k < self.fonts@.len() ==> (#[trigger] self.fonts@[k]).name@
                == font_resource_name(k as nat) && self.fonts@[k].id == counts.font_refs(
                k,
            ).type0_font
        &&& self.images@.len() == counts.images
        &&& forall|k: int|
            0 <= k < self.images@.len() ==> (#[trigger] self.images@[k]).name@
                == image_resource_name(k as nat) && self.images@[k].id == Ref(
                counts.image_band()[k] as i32,
            )
        &&& self.pages@.len() == frames.len()
        &&& forall|k: int|
            0 <= k < self.pages@.len() ==> (#[trigger] self.pages@[k])@ == page_object(
                counts,
                frames[k],
                k,
            )
    }
}

/// The content stream of a page, before it is written out and compressed.
#[derive(Clone, Debug)]
pub struct ContentStream {
    /// The number of the object.
    pub id: Ref,
    /// The operators of the stream.
    pub ops: Vec<Op>,
}

/// All objects of a document.
#[derive(Clone, Debug)]
pub struct Document {
    pub structure: Structure,
    /// The content streams of the pages, in page order.
    pub contents: Vec<ContentStream>,
    /// The fonts, in the order of their indices.
    pub fonts: Vec<FontObject>,
    /// The images, in the order of their indices.
    pub images: Vec<ImageObject>,
    /// The first number that no object has.
    pub end: i32,
}

/// Whether these are the content streams of the frames, in their order.
pub open spec fn contents_describe(
    contents: Seq<ContentStream>,
    ctx: Context,
    frames: Seq<Frame>,
) -> bool {
    &&& contents.len() == frames.len()
    &&& forall|k: int|
        0 <= k < contents.len() ==> (#[trigger] contents[k]).id == Ref(
            counts(ctx, frames).content_band()[k] as i32,
        ) && ops_view(contents[k].ops@) == page_ops(
            frames[k],
            usage(frames).fonts,
            usage(frames).images,
            ctx.fonts,
        )
}

/// Whether these are the font objects of the document for the frames, with
/// the given subsets of the font programs.
pub open spec fn fonts_describe(
    fonts: Seq<FontObject>,
    ctx: Context,
    frames: Seq<Frame>,
    subsets: Seq<Option<Seq<u8>>>,
) -> bool {
    &&& fonts.len() == usage(frames).fonts.len()
    &&& forall|k: int|
        0 <= k < fonts.len() ==> (#[trigger] fonts[k])@ == font_object(
            counts(ctx, frames),
            usage(frames).fonts,
            ctx.fonts,
            usage(frames).glyphs,
            subsets,
            k,
        )
}

/// Whether these are the image objects of the document for the frames.
pub open spec fn images_describe(images: Seq<ImageObject>, ctx: Context, frames: Seq<Frame>) -> bool {
    &&& images.len() == usage(frames).images.len()
    &&& forall|k: int|
        0 <= k < images.len() ==> (#[trigger] images[k])@ == image_object(
            counts(ctx, frames),
            usage(frames).images,
            ctx.images,
            k,
        )
}

impl Document {
    /// Whether this is the document for the frames: one page for each frame,
    /// the fonts and images that the frames use, each object under the
    /// number that the numbering gives it. `subsets` holds, by the index of
    /// the font, the subsets of font programs that are embedded in place of
    /// the whole font program.
    pub open spec fn describes(
        &self,
        ctx: Context,
        frames: Seq<Frame>,
        subsets: Seq<Option<Seq<u8>>>,
    ) -> bool {
        &&& self.structure.describes(counts(ctx, frames), frames)
        &&& contents_describe(self.contents@, ctx, frames)
        &&& fonts_describe(self.fonts@, ctx, frames, subsets)
        &&& images_describe(self.images@, ctx, frames)
        &&& self.end == counts(ctx, frames).end()
    }

    /// Whether this is the document for the frames with the subsets that a
    /// subsetter answered: there are answers of the subsetter, one for each
    /// font in use, such that this is the document with them.
    pub open spec fn describes_for<F: Fn(&[u8], u32, &HashSet<u16>) -> Option<Vec<u8>>>(
        &self,
        ctx: Context,
        frames: Seq<Frame>,
        subset: F,
    ) -> bool {
        exists|subsets: Seq<Option<Vec<u8>>>| #[trigger]
            subsets_fit(subset, ctx, frames, subsets) && self.describes(
                ctx,
                frames,
                subsets_view(subsets),
            )
    }
}

/// Whether the subsets are the answers of the subsetter for the fonts that
/// the frames use: for each font, what it answered for the font file of the
/// face, the index of the face, and the glyphs that the frames show in it.
pub open spec fn subsets_fit<F: Fn(&[u8], u32, &HashSet<u16>) -> Option<Vec<u8>>>(
    subset: F,
    ctx: Context,
    frames: Seq<Frame>,
    subsets: Seq<Option<Vec<u8>>>,
) -> bool {
    all_answered(subset, usage(frames).fonts, ctx.fonts, usage(frames).glyphs, subsets)
}

/// The links of a page.
pub fn write_links(page: &Frame) -> (links: Vec<LinkAnnotation>)
    ensures
        links_view(links@) == page_links(*page, page.elements@.len() as int),
{
    let mut links: Vec<LinkAnnotation> = Vec::new();
    let mut i: usize = 0;
    assert(links_view(links@) =~= Seq::empty());
    while i < page.elements.len()
        invariant
            i <= page.elements.len(),
            links_view(links@) == page_links(*page, i as int),
        decreases page.elements.len() - i,
    {
        let entry = &page.elements[i];
        match &entry.1 {
            Element::Link(href, size) => {
                let x: i64 = entry.0.x.0 as i64;
                let y: i64 = page.size.h.0 as i64 - entry.0.y.0 as i64;
                let w: i64 = size.w.0 as i64;
                let h: i64 = size.h.0 as i64;
                let link = LinkAnnotation { x1: x, y1: y - h, x2: x + w, y2: y, uri: href.clone() };
                assert(links_view(links@.push(link)) =~= links_view(links@).push(link@));
                links.push(link);
            },
            _ => {},
        }
        i += 1;
    }
    links
}

impl<'a> PdfExporter<'a> {
    /// Describes the catalog, the page tree and the page objects.
    pub fn write_structure(&self) -> (structure: Structure)
        requires
            self.wf(),
        ensures
            structure.describes(counts(self.ctx(), self.frames@), self.frames@),
    {
        let ghost counts = self.refs@;
        let end = self.refs.end();
        let kids = self.refs.pages();
        let contents = self.refs.contents();
        let font_refs = self.refs.fonts();
        let image_refs = self.refs.images();
        let page_tree = self.refs.page_tree();

        let mut fonts: Vec<Resource> = Vec::new();
        let mut f: usize = 0;
        while f < font_refs.len()
            invariant
                f <= font_refs.len(),
                font_refs@.len() == counts.fonts,
                forall|k: int|
                    0 <= k < font_refs@.len() ==> #[trigger] font_refs@[k] == counts.font_refs(k),
                fonts@.len() == f,
                forall|k: int|
                    0 <= k < fonts@.len() ==> (#[trigger] fonts@[k]).name@ == font_resource_name(
                        k as nat,
                    ) && fonts@[k].id == counts.font_refs(k).type0_font,
            decreases font_refs.len() - f,
        {
            fonts.push(Resource { name: font_resource(f), id: font_refs[f].type0_font });
            f += 1;
        }

        let mut images: Vec<Resource> = Vec::new();
        let mut im: usize = 0;
        while im < image_refs.len()
            invariant
                im <= image_refs.len(),
                counts.end() <= i32::MAX,
                image_refs@.len() == counts.images,
                forall|k: int|
                    0 <= k < image_refs@.len() ==> (#[trigger] image_refs@[k]).0
                        == counts.image_band()[k],
                images@.len() == im,
                forall|k: int|
                    0 <= k < images@.len() ==> (#[trigger] images@[k]).name@
                        == image_resource_name(k as nat) && images@[k].id == Ref(
                        counts.image_band()[k] as i32,
                    ),
            decreases image_refs.len() - im,
        {
            images.push(Resource { name: image_resource(im), id: image_refs[im] });
            im += 1;
        }

        let mut pages: Vec<PageObject> = Vec::new();
        let mut p: usize = 0;
        while p < self.frames.len()
            invariant
                p <= self.frames.len(),
                counts.end() <= i32::MAX,
                counts.pages == self.frames@.len(),
                page_tree.0 == counts.page_tree(),
                kids@.len() == counts.pages,
                forall|k: int|
                    0 <= k < kids@.len() ==> (#[trigger] kids@[k]).0 == counts.page_band()[k],
                contents@.len() == counts.pages,
                forall|k: int|
                    0 <= k < contents@.len() ==> (#[trigger] contents@[k]).0
                        == counts.content_band()[k],
                pages@.len() == p,
                forall|k: int|
                    0 <= k < pages@.len() ==> (#[trigger] pages@[k])@ == page_object(
                        counts,
                        self.frames@[k],
                        k,
                    ),
            decreases self.frames.len() - p,
        {
            let page = &self.frames[p];
            let object = PageObject {
                id: kids[p],
                parent: page_tree,
                width: page.size.w,
                height: page.size.h,
                links: write_links(page),
                contents: contents[p],
            };
            assert(object@ == page_object(counts, self.frames@[p as int], p as int));
            pages.push(object);
            p += 1;
        }
        Structure { catalog: self.refs.catalog(), page_tree, kids, fonts, images, pages }
    }

    /// Describes the content streams of the pages.
    pub fn write_pages(&self) -> (contents: Vec<ContentStream>)
        requires
            self.wf(),
        ensures
            contents_describe(contents@, self.ctx(), self.frames@),
    {
        let ghost counts = self.refs@;
        let end = self.refs.end();
        let ids = self.refs.contents();
        let mut contents: Vec<ContentStream> = Vec::new();
        let mut p: usize = 0;
        while p < self.frames.len()
            invariant
                p <= self.frames.len(),
                self.wf(),
                counts == self.refs@,
                counts.end() <= i32::MAX,
                ids@.len() == counts.pages,
                forall|k: int|
                    0 <= k < ids@.len() ==> (#[trigger] ids@[k]).0 == counts.content_band()[k],
                contents@.len() == p,
                forall|k: int|
                    0 <= k < contents@.len() ==> (#[trigger] contents@[k]).id == Ref(
                        counts.content_band()[k] as i32,
                    ) && ops_view(contents@[k].ops@) == page_ops(
                        self.frames@[k],
                        self.font_map@,
                        self.image_map@,
                        *self.fonts,
                    ),
            decreases self.frames.len() - p,
        {
            let page = &self.frames[p];
            assert(page_resolves(
                self.frames@[p as int],
                self.font_map@,
                self.image_map@,
                *self.fonts,
            ));
            let ops = write_page(page, &self.font_map, &self.image_map, self.fonts);
            contents.push(ContentStream { id: ids[p], ops });
            p += 1;
        }
        contents
    }

    /// Describes the objects that embed the fonts, each with the subset of
    /// its font program that `subsets` holds at its index, or with the whole
    /// font program where it holds none.
    pub fn write_fonts(&self, subsets: &Vec<Option<Vec<u8>>>) -> (fonts: Vec<FontObject>)
        requires
            self.wf(),
        ensures
            fonts_describe(fonts@, self.ctx(), self.frames@, subsets_view(subsets@)),
    {
        write_fonts(&self.refs, &self.font_map, self.fonts, &self.glyphs, subsets)
    }

    /// Describes the objects that embed the images.
    pub fn write_images(&self) -> (images: Vec<ImageObject>)
        requires
            self.wf(),
        ensures
            images_describe(images@, self.ctx(), self.frames@),
    {
        write_images(&self.refs, &self.image_map, self.images)
    }

    /// Describes all objects of the document. `subsets` holds, by the index
    /// of the font, what the subsetter made of each font program; a font for
    /// which it holds nothing is embedded whole.
    pub fn write(self, subsets: &Vec<Option<Vec<u8>>>) -> (doc: Document)
        requires
            self.wf(),
        ensures
            doc.describes(self.ctx(), self.frames@, subsets_view(subsets@)),
    {
        let structure = self.write_structure();
        let contents = self.write_pages();
        let fonts = self.write_fonts(subsets);
        let images = self.write_images();
        Document { structure, contents, fonts, images, end: self.refs.end() }
    }
}

/// Whether `out` is what the subsetter answered when it was handed the bytes
/// of the font file of a face, the index of the face in the file, and a set
/// of glyphs.
pub open spec fn answered<F: Fn(&[u8], u32, &HashSet<u16>) -> Option<Vec<u8>>>(
    subset: F,
    face: FontFace,
    glyphs: Set<u16>,
    out: Option<Vec<u8>>,
) -> bool {
    exists|data: &[u8], used: &HashSet<u16>|
        data@ == face.buffer@ && used@ == glyphs && #[trigger] call_ensures(
            subset,
            (data, face.index, used),
            out,
        )
}

/// Whether the subsets are the answers of the subsetter for the fonts, in
/// the order of their indices: for each font, what it answered for the font
/// file of the face, the index of the face, and the glyphs that are shown in
/// the face.
pub open spec fn all_answered<F: Fn(&[u8], u32, &HashSet<u16>) -> Option<Vec<u8>>>(
    subset: F,
    ids: Seq<u32>,
    fonts: FontStore,
    glyphs: Map<u32, Set<u16>>,
    subsets: Seq<Option<Vec<u8>>>,
) -> bool {
    &&& subsets.len() == ids.len()
    &&& forall|k: int|
        0 <= k < subsets.len() ==> answered(
            subset,
            fonts.face(FaceId(ids[k])),
            glyphs[ids[k]],
            #[trigger] subsets[k],
        )
}

/// Asks the subsetter for a subset of the font program of each font in use,
/// in the order of the indices. It hands the subsetter the bytes of the font
/// file, the index of the face in it, and the glyphs that the document shows
/// in the font.
pub fn make_subsets<F>(exporter: &PdfExporter, subset: &F) -> (subsets: Vec<Option<Vec<u8>>>) where
    F: Fn(&[u8], u32, &HashSet<u16>) -> Option<Vec<u8>>,

    requires
        exporter.wf(),
        forall|data: &[u8], index: u32, glyphs: &HashSet<u16>|
            call_requires(subset, (data, index, glyphs)),
    ensures
        all_answered(
            *subset,
            exporter.font_map@,
            *exporter.fonts,
            sets_view(exporter.glyphs@),
            subsets@,
        ),
{
    let ids = exporter.font_map.layout_indices();
    let mut subsets: Vec<Option<Vec<u8>>> = Vec::new();
    let mut k: usize = 0;
    while k < ids.len()
        invariant
            k <= ids.len(),
            exporter.wf(),
            ids@ == exporter.font_map@,
            subsets@.len() == k,
            forall|j: int|
                0 <= j < subsets@.len() ==> answered(
                    *subset,
                    exporter.fonts.face(FaceId(ids@[j])),
                    sets_view(exporter.glyphs@)[ids@[j]],
                    #[trigger] subsets@[j],
                ),
            forall|data: &[u8], index: u32, glyphs: &HashSet<u16>|
                call_requires(subset, (data, index, glyphs)),
        decreases ids.len() - k,
    {
        assert(sets_view(exporter.glyphs@).contains_key(exporter.font_map@[k as int]));
        let face = exporter.fonts.get(FaceId(ids[k]));
        let glyphs = exporter.glyphs.get(&ids[k]).unwrap();
        let data = face.buffer.as_slice();
        let out = subset(data, face.index, glyphs);
        assert(answered(*subset, *face, sets_view(exporter.glyphs@)[ids@[k as int]], out)) by {
            assert(call_ensures(*subset, (data, face.index, glyphs), out));
        }
        subsets.push(out);
        k += 1;
    }
    subsets
}

/// Exports frames into the description of a PDF document with one page for
/// each frame.
///
/// `ctx` holds the fonts and images that the frames name. `subset` is asked
/// once for each font in use to reduce its font program to the glyphs in
/// use; where it returns `None`, the whole font program is embedded.
///
/// The export fails with the fault of the first element that names a face or
/// an image that `ctx` does not hold; and, where no element is faulty, if the
/// document would have more objects than there are object numbers. In every
/// other case it returns the document for the frames with the subsets that
/// the subsetter answered. An image that cannot be encoded does not stop the
/// export: a placeholder stands in its place.
pub fn pdf<F>(ctx: &Context, frames: &[Frame], subset: F) -> (r: Result<Document, ExportError>) where
    F: Fn(&[u8], u32, &HashSet<u16>) -> Option<Vec<u8>>,

    requires
        forall|data: &[u8], index: u32, glyphs: &HashSet<u16>|
            call_requires(subset, (data, index, glyphs)),
    ensures
        match r {
            Ok(doc) => export_error(*ctx, frames@) is None && doc.describes_for(
                *ctx,
                frames@,
                subset,
            ),
            Err(e) => export_error(*ctx, frames@) == Some(e),
        },
{
    match PdfExporter::new(ctx, frames) {
        Ok(exporter) => {
            let subsets = make_subsets(&exporter, &subset);
            let doc = exporter.write(&subsets);
            assert(subsets_fit(subset, *ctx, frames@, subsets@));
            assert(doc.describes(*ctx, frames@, subsets_view(subsets@)));
            Ok(doc)
        },
        Err(e) => Err(e),
    }
}

} // verus!
