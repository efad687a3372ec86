//! The objects that embed images: for each image its samples, encoded, and
//! the mask that holds its alpha channel.

use crate::compress::{deflate, deflated};
use crate::layout::ImageId;
use crate::raster::{ColorLayout, Image, ImageFormat, ImageStore};
use crate::refs::{Counts, Ref, Refs};
use crate::remap::Remapper;
use vstd::prelude::*;

verus! {

/// How the data of a stream is to be decoded.
#[derive(Clone, Copy, PartialEq, Eq, Debug, Structural)]
pub enum Filter {
    /// The data is a JPEG file.
    DctDecode,
    /// The data is a zlib stream.
    FlateDecode,
}

/// The colour space of the samples of an image object.
#[derive(Clone, Copy, PartialEq, Eq, Debug, Structural)]
pub enum ColorSpace {
    DeviceGray,
    DeviceRgb,
}

/// Why an image cannot be encoded.
#[derive(Clone, Copy, PartialEq, Eq, Debug, Structural)]
pub enum EncodeError {
    /// The buffer of samples does not fit the dimensions and the layout of
    /// the image.
    Corrupt,
}

/// How an image is encoded, its alpha channel left aside. An image that was
/// decoded from a JPEG file into luminance, or into red, green and blue, is
/// passed through: its data are the bytes of that file, unchanged. Of the
/// other images, one whose buffer does not fit its dimensions cannot be
/// encoded. An image of luminance alone is compressed as it is, in shades of
/// grey. Every other image is compressed as red, green and blue.
pub open spec fn encoding(img: Image) -> Result<(Seq<u8>, Filter, ColorSpace), EncodeError> {
    if img.format is Jpeg && img.layout is Luma8 {
        Ok((img.source@, Filter::DctDecode, ColorSpace::DeviceGray))
    } else if img.format is Jpeg && img.layout is Rgb8 {
        Ok((img.source@, Filter::DctDecode, ColorSpace::DeviceRgb))
    } else if !img.wf() {
        Err(EncodeError::Corrupt)
    } else if img.layout is Luma8 {
        Ok((deflated(img.samples@), Filter::FlateDecode, ColorSpace::DeviceGray))
    } else {
        Ok((deflated(img.rgb()), Filter::FlateDecode, ColorSpace::DeviceRgb))
    }
}

/// Encodes an image with a suitable filter, its alpha channel left aside.
pub fn encode_image(img: &Image) -> (r: Result<(Vec<u8>, Filter, ColorSpace), EncodeError>)
    ensures
        match r {
            Ok((data, filter, color_space)) => encoding(*img) == Ok::<_, EncodeError>(
                (data@, filter, color_space),
            ),
            Err(e) => encoding(*img) == Err::<(Seq<u8>, Filter, ColorSpace), _>(e),
        },
{
    match (img.format, img.layout) {
        (ImageFormat::Jpeg, ColorLayout::Luma8) => {
            Ok((img.source.clone(), Filter::DctDecode, ColorSpace::DeviceGray))
        },
        (ImageFormat::Jpeg, ColorLayout::Rgb8) => {
            Ok((img.source.clone(), Filter::DctDecode, ColorSpace::DeviceRgb))
        },
        (_, layout) => {
            if !img.is_well_formed() {
                Err(EncodeError::Corrupt)
            } else {
                match layout {
                    ColorLayout::Luma8 => {
                        let data = deflate(img.samples.as_slice());
                        Ok((data, Filter::FlateDecode, ColorSpace::DeviceGray))
                    },
                    _ => {
                        let pixels = img.rgb_samples();
                        let data = deflate(pixels.as_slice());
                        Ok((data, Filter::FlateDecode, ColorSpace::DeviceRgb))
                    },
                }
            }
        },
    }
}

/// Whether an image gets a mask: it has an alpha channel, and its buffer
/// fits its dimensions, so that the channel can be read.
pub open spec fn has_mask(img: Image) -> bool {
    img.layout.has_alpha() && img.wf()
}

/// Encodes the alpha channel of an image.
pub fn encode_alpha(img: &Image) -> (r: (Vec<u8>, Filter))
    ensures
        r.0@ == deflated(img.alpha()),
        r.1 == Filter::FlateDecode,
{
    let pixels = img.alpha_samples();
    (deflate(pixels.as_slice()), Filter::FlateDecode)
}

/// An image object: a stream of samples and what is needed to read them.
#[derive(Clone, Debug)]
pub struct ImageStream {
    /// The number of the object.
    pub id: Ref,
    /// The encoded samples.
    pub data: Vec<u8>,
    /// How the data is to be decoded; `None` if it is not encoded.
    pub filter: Option<Filter>,
    pub width: u32,
    pub height: u32,
    pub color_space: ColorSpace,
    pub bits_per_component: u8,
}

/// What an `ImageStream` stands for.
pub struct ImageStreamView {
    pub id: Ref,
    pub data: Seq<u8>,
    pub filter: Option<Filter>,
    pub width: u32,
    pub height: u32,
    pub color_space: ColorSpace,
    pub bits_per_component: u8,
}

impl View for ImageStream {
    type V = ImageStreamView;

    open spec fn view(&self) -> ImageStreamView {
        ImageStreamView {
            id: self.id,
            data: self.data@,
            filter: self.filter,
            width: self.width,
            height: self.height,
            color_space: self.color_space,
            bits_per_component: self.bits_per_component,
        }
    }
}

/// An image of the document: its object, and the object of its soft mask if
/// it has an alpha channel. The image object refers to its mask by number.
#[derive(Clone, Debug)]
pub struct ImageObject {
    pub image: ImageStream,
    pub mask: Option<ImageStream>,
}

/// What an `ImageObject` stands for.
pub struct ImageObjectView {
    pub image: ImageStreamView,
    pub mask: Option<ImageStreamView>,
}

impl View for ImageObject {
    type V = ImageObjectView;

    open spec fn view(&self) -> ImageObjectView {
        ImageObjectView {
            image: self.image@,
            mask: match self.mask {
                Some(mask) => Some(mask@),
                None => None,
            },
        }
    }
}

/// The image that the store holds for the identifier at place `k`.
pub open spec fn image_at(ids: Seq<u32>, store: ImageStore, k: int) -> Image {
    store.image(ImageId(ids[k]))
}

/// How many of the first `k` images get a mask.
pub open spec fn alpha_before(ids: Seq<u32>, store: ImageStore, k: int) -> nat
    decreases k,
{
    if k <= 0 {
        0
    } else {
        alpha_before(ids, store, k - 1) + if has_mask(image_at(ids, store, k - 1)) {
            1nat
        } else {
            0nat
        }
    }
}

/// How many of the images get a mask.
pub open spec fn alpha_count(ids: Seq<u32>, store: ImageStore) -> nat {
    alpha_before(ids, store, ids.len() as int)
}

/// The object that stands in for an image that cannot be encoded: an empty
/// image of one bit for each sample.
pub open spec fn placeholder(id: Ref) -> ImageObjectView {
    ImageObjectView {
        image: ImageStreamView {
            id,
            data: Seq::empty(),
            filter: None,
            width: 0,
            height: 0,
            color_space: ColorSpace::DeviceGray,
            bits_per_component: 1,
        },
        mask: None,
    }
}

/// The object for the image at place `k`. Its number is the one at place `k`
/// of the image band. If the image has an alpha channel, the channel is
/// compressed into a mask in shades of grey, and the mask takes the next free
/// number of the mask band: as many numbers are taken before it as images
/// before it have a mask. An image that cannot be encoded has a placeholder
/// in its place, and no mask.
pub open spec fn image_object(counts: Counts, ids: Seq<u32>, store: ImageStore, k: int) -> ImageObjectView {
    let img = image_at(ids, store, k);
    let id = Ref(counts.image_band()[k] as i32);
    match encoding(img) {
        Ok((data, filter, color_space)) => ImageObjectView {
            image: ImageStreamView {
                id,
                data,
                filter: Some(filter),
                width: img.width,
                height: img.height,
                color_space,
                bits_per_component: 8,
            },
            mask: if has_mask(img) {
                Some(
                    ImageStreamView {
                        id: Ref(
                            counts.alpha_mask_band()[alpha_before(ids, store, k) as int] as i32,
                        ),
                        data: deflated(img.alpha()),
                        filter: Some(Filter::FlateDecode),
                        width: img.width,
                        height: img.height,
                        color_space: ColorSpace::DeviceGray,
                        bits_per_component: 8,
                    },
                )
            } else {
                None
            },
        },
        Err(_) => placeholder(id),
    }
}

/// An image can be encoded exactly if it is passed through or its buffer
/// fits its dimensions; so an image that gets a mask can be encoded, and an
/// image with an alpha channel that can be encoded gets a mask.
pub proof fn lemma_alpha_encodes(img: Image)
    ensures
        has_mask(img) ==> encoding(img) is Ok,
        img.layout.has_alpha() && encoding(img) is Ok ==> has_mask(img),
{
}

/// The count of images that get a mask grows with the number of images
/// looked at.
pub proof fn lemma_alpha_before_grows(ids: Seq<u32>, store: ImageStore, i: int, j: int)
    requires
        i <= j,
    ensures
        alpha_before(ids, store, i) <= alpha_before(ids, store, j),
    decreases j - i,
{
    if i < j {
        lemma_alpha_before_grows(ids, store, i, j - 1);
    }
}

/// The alpha count of the first `k` images does not depend on what follows
/// them.
pub proof fn lemma_alpha_before_push(ids: Seq<u32>, id: u32, store: ImageStore, k: int)
    requires
        k <= ids.len(),
    ensures
        alpha_before(ids.push(id), store, k) == alpha_before(ids, store, k),
        alpha_before(ids, store, k) <= if k < 0 { 0 } else { k },
    decreases k,
{
    if k > 0 {
        lemma_alpha_before_push(ids, id, store, k - 1);
        assert(ids.push(id)[k - 1] == ids[k - 1]);
    }
}

/// Whether the store holds an image for each identifier.
pub open spec fn images_resolve(ids: Seq<u32>, store: ImageStore) -> bool {
    forall|k: int| 0 <= k < ids.len() ==> store.has(ImageId(#[trigger] ids[k]))
}

/// Describes the objects of the images of a document, in the order of their
/// indices.
///
/// The numbering must have been made for these images: for their number, and
/// for the number of those that get a mask.
pub fn write_images(refs: &Refs, image_map: &Remapper, images: &ImageStore) -> (objects: Vec<
    ImageObject,
>)
    requires
        image_map.wf(),
        images_resolve(image_map@, *images),
        refs@.images == image_map@.len(),
        refs@.alpha_masks == alpha_count(image_map@, *images),
    ensures
        objects@.len() == image_map@.len(),
        forall|k: int|
            0 <= k < objects@.len() ==> (#[trigger] objects@[k])@ == image_object(
                refs@,
                image_map@,
                *images,
                k,
            ),
{
    let ids = image_map.layout_indices();
    let image_refs = refs.images();
    let end = refs.end();
    let mut masks_seen: usize = 0;
    let mut objects: Vec<ImageObject> = Vec::new();
    let mut k: usize = 0;
    while k < ids.len()
        invariant
            k <= ids.len(),
            ids@ == image_map@,
            images_resolve(image_map@, *images),
            refs@.images == image_map@.len(),
            refs@.alpha_masks == alpha_count(image_map@, *images),
            refs@.end() <= i32::MAX,
            image_refs@.len() == refs@.images,
            forall|j: int|
                0 <= j < image_refs@.len() ==> (#[trigger] image_refs@[j]).0
                    == refs@.image_band()[j],
            masks_seen == alpha_before(image_map@, *images, k as int),
            objects@.len() == k,
            forall|j: int|
                0 <= j < objects@.len() ==> (#[trigger] objects@[j])@ == image_object(
                    refs@,
                    image_map@,
                    *images,
                    j,
                ),
        decreases ids.len() - k,
    {
        let img = images.get(ImageId(ids[k]));
        let id = image_refs[k];
        proof {
            lemma_alpha_before_grows(image_map@, *images, k + 1, ids@.len() as int);
        }
        proof {
            lemma_alpha_encodes(*img);
        }
        let object = match encode_image(img) {
            Ok((data, filter, color_space)) => {
                let image = ImageStream {
                    id,
                    data,
                    filter: Some(filter),
                    width: img.width,
                    height: img.height,
                    color_space,
                    bits_per_component: 8,
                };
                let mask = if img.layout.has_alpha() {
                    let (alpha_data, alpha_filter) = encode_alpha(img);
                    let mask_id = refs.alpha_mask(masks_seen);
                    masks_seen += 1;
                    Some(
                        ImageStream {
                            id: mask_id,
                            data: alpha_data,
                            filter: Some(alpha_filter),
                            width: img.width,
                            height: img.height,
                            color_space: ColorSpace::DeviceGray,
                            bits_per_component: 8,
                        },
                    )
                } else {
                    None
                };
                ImageObject { image, mask }
            },
            Err(_) => {
                ImageObject {
                    image: ImageStream {
                        id,
                        data: Vec::new(),
                        filter: None,
                        width: 0,
                        height: 0,
                        color_space: ColorSpace::DeviceGray,
                        bits_per_component: 1,
                    },
                    mask: None,
                }
            },
        };
        assert(object@ == image_object(refs@, image_map@, *images, k as int));
        objects.push(object);
        k += 1;
    }
    objects
}

/// The numbers of the masks among the first `n` objects, in their order.
pub open spec fn mask_ids(objects: Seq<ImageObjectView>, n: int) -> Seq<Ref>
    decreases n,
{
    if n <= 0 {
        Seq::empty()
    } else {
        match objects[n - 1].mask {
            Some(mask) => mask_ids(objects, n - 1).push(mask.id),
            None => mask_ids(objects, n - 1),
        }
    }
}

/// The objects of all images.
pub open spec fn image_objects(counts: Counts, ids: Seq<u32>, store: ImageStore) -> Seq<
    ImageObjectView,
> {
    Seq::new(ids.len(), |k: int| image_object(counts, ids, store, k))
}

/// Masks and the images that get one are paired: among the first `n` image
/// objects there is one mask for each image that gets one, and
/// the masks take the numbers of the mask band from its start, in order.
pub proof fn lemma_masks_upto(counts: Counts, ids: Seq<u32>, store: ImageStore, n: int)
    requires
        0 <= n <= ids.len(),
        counts.end() <= i32::MAX,
        counts.alpha_masks == alpha_count(ids, store),
    ensures
        mask_ids(image_objects(counts, ids, store), n).len() == alpha_before(ids, store, n),
        forall|j: int|
            0 <= j < alpha_before(ids, store, n) ==> (#[trigger] mask_ids(
                image_objects(counts, ids, store),
                n,
            )[j]).0 == counts.alpha_mask_band()[j],
        forall|k: int|
            0 <= k < n ==> ((#[trigger] image_objects(counts, ids, store)[k]).mask is Some
                <==> has_mask(image_at(ids, store, k))),
    decreases n,
{
    if n > 0 {
        lemma_masks_upto(counts, ids, store, n - 1);
        lemma_alpha_before_grows(ids, store, n, ids.len() as int);
        let objects = image_objects(counts, ids, store);
        assert(objects[n - 1] == image_object(counts, ids, store, n - 1));
        lemma_alpha_encodes(image_at(ids, store, n - 1));
    }
}

/// How many of the first `k` images have an alpha channel.
pub open spec fn with_alpha_before(ids: Seq<u32>, store: ImageStore, k: int) -> nat
    decreases k,
{
    if k <= 0 {
        0
    } else {
        with_alpha_before(ids, store, k - 1) + if image_at(ids, store, k - 1).layout.has_alpha() {
            1nat
        } else {
            0nat
        }
    }
}

/// Among images whose buffers fit their dimensions, those that get a mask
/// are those with an alpha channel.
pub proof fn lemma_sound_images_with_alpha(ids: Seq<u32>, store: ImageStore, k: int)
    requires
        0 <= k <= ids.len(),
        forall|j: int| 0 <= j < k ==> (#[trigger] image_at(ids, store, j)).wf(),
    ensures
        alpha_before(ids, store, k) == with_alpha_before(ids, store, k),
    decreases k,
{
    if k > 0 {
        lemma_sound_images_with_alpha(ids, store, k - 1);
        assert(image_at(ids, store, k - 1).wf());
    }
}

/// Where the mask band has a slot for each image that gets a mask, the image
/// objects hold exactly that many masks, an image object has a mask exactly
/// if its image gets one, and the numbers of the masks are those of the mask
/// band, in its order, each used once. Where the buffers of all images fit
/// their dimensions, the images that get a mask are those with an alpha
/// channel: as many masks as such images, one in the object of each.
pub proof fn lemma_masks_fill_band(counts: Counts, ids: Seq<u32>, store: ImageStore)
    requires
        counts.end() <= i32::MAX,
        counts.alpha_masks == alpha_count(ids, store),
    ensures
        mask_ids(image_objects(counts, ids, store), ids.len() as int).len()
            == counts.alpha_masks,
        forall|j: int|
            0 <= j < counts.alpha_masks ==> (#[trigger] mask_ids(
                image_objects(counts, ids, store),
                ids.len() as int,
            )[j]).0 == counts.alpha_mask_band()[j],
        forall|k: int|
            0 <= k < ids.len() ==> ((#[trigger] image_objects(counts, ids, store)[k]).mask is Some
                <==> has_mask(image_at(ids, store, k))),
        (forall|j: int| 0 <= j < ids.len() ==> (#[trigger] image_at(ids, store, j)).wf())
            ==> counts.alpha_masks == with_alpha_before(ids, store, ids.len() as int) && forall|
            k: int,
        |
            0 <= k < ids.len() ==> ((#[trigger] image_objects(counts, ids, store)[k]).mask is Some
                <==> image_at(ids, store, k).layout.has_alpha()),
{
    lemma_masks_upto(counts, ids, store, ids.len() as int);
    if forall|j: int| 0 <= j < ids.len() ==> (#[trigger] image_at(ids, store, j)).wf() {
        lemma_sound_images_with_alpha(ids, store, ids.len() as int);
        assert forall|k: int| 0 <= k < ids.len() implies ((#[trigger] image_objects(
            counts,
            ids,
            store,
        )[k]).mask is Some <==> image_at(ids, store, k).layout.has_alpha()) by {
            assert(image_at(ids, store, k).wf());
        }
    }
}

} // verus!
