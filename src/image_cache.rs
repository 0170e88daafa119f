use vstd::prelude::*;

verus! {

#[verifier::external_type_specification]
#[verifier::external_body]
pub struct ExContext(egui::Context);

#[verifier::external_type_specification]
#[verifier::external_body]
pub struct ExTextureHandle(egui::TextureHandle);

/// The width and height of the image that `b` decodes to, in the format its
/// leading bytes announce, or `None` when `b` is no image that can be decoded.
pub uninterp spec fn decoded_size(b: Seq<u8>) -> Option<(u32, u32)>;

/// An image decoded into straight-alpha RGBA bytes, row by row.
pub struct DecodedImage {
    pub width: u32,
    pub height: u32,
    pub pixels: Vec<u8>,
}

/// Relies on `image::guess_format`, which picks the format from the leading
/// bytes by a fixed table, on `image::load_from_memory_with_format`, which
/// decodes in that built-in format (no registered hook is consulted once the
/// format is given), on `GenericImageView::dimensions` for the size, and on
/// `DynamicImage::to_rgba8` and `ImageBuffer::into_raw` for the pixels: a
/// buffer of exactly four bytes per pixel, as `ImageBuffer::new` allocates it
/// and as decoders fill it (`ImageDecoder::total_bytes`). The pixel values
/// may differ between machines, so nothing is claimed of them.
#[verifier::external_body]
fn decode_rgba(bytes: &[u8]) -> (r: Option<DecodedImage>)
    ensures
        match r {
            Some(img) => {
                &&& decoded_size(bytes@) == Some((img.width, img.height))
                &&& img.pixels@.len() == 4 * img.width * img.height
            },
            None => decoded_size(bytes@) is None,
        },
{
    match image::guess_format(bytes) {
        Ok(format) => match image::load_from_memory_with_format(bytes, format) {
            Ok(img) => {
                let (width, height) = image::GenericImageView::dimensions(&img);
                Some(DecodedImage { width, height, pixels: img.to_rgba8().into_raw() })
            },
            Err(_) => None,
        },
        Err(_) => None,
    }
}

/// Relies on `egui::ColorImage::from_rgba_unmultiplied`, which asserts that
/// `rgba` holds four bytes for each of the `width * height` pixels, on
/// `egui::Context::tex_manager` and `TextureManager::alloc`, which register
/// the image with the context's texture manager, and on
/// `TextureHandle::new`, which holds the registration. This is the work of
/// `Context::load_texture` without its debug assertion on the context's
/// largest texture side, a bound that depends on the context's state and so
/// cannot stand in this contract.
#[verifier::external_body]
fn upload_texture(
    ctx: &egui::Context,
    name: &str,
    width: usize,
    height: usize,
    rgba: &Vec<u8>,
) -> (r: egui::TextureHandle)
    requires
        width * height * 4 == rgba@.len(),
{
    let image = egui::ColorImage::from_rgba_unmultiplied([width, height], rgba.as_slice());
    let manager = ctx.tex_manager();
    let id = manager.write().alloc(
        name.to_string(),
        egui::ImageData::from(image),
        egui::TextureOptions::default(),
    );
    egui::TextureHandle::new(manager, id)
}

/// The size assumed for the image before it is loaded.
pub const DEFAULT_WIDTH: u32 = 150;

pub const DEFAULT_HEIGHT: u32 = 200;

/// The name under which the texture is registered.
pub const TEXTURE_NAME: &'static str = "anime-character";

/// The image shown in the title bar and beside the form: decoded and uploaded
/// once, then kept.
pub struct ImageCache {
    texture: Option<egui::TextureHandle>,
    width: u32,
    height: u32,
    decodes: u64,
}

/// One `ensure_loaded` call on `bytes`, from `pre` to `post`.
pub open spec fn load_transition(pre: ImageCache, post: ImageCache, bytes: Seq<u8>) -> bool {
    if pre.loaded() {
        post == pre
    } else {
        &&& post.decodes() == if pre.decodes() < u64::MAX {
            pre.decodes() + 1
        } else {
            pre.decodes() as int
        }
        &&& !post.loaded() ==> post.dims() == pre.dims()
        &&& match decoded_size(bytes) {
            Some((w, h)) => post.loaded() && post.dims() == (w, h),
            None => !post.loaded(),
        }
    }
}

impl ImageCache {
    /// A cache is loaded exactly when it holds a texture handle.
    pub open spec fn loaded(&self) -> bool {
        self.handle() is Some
    }

    pub closed spec fn dims(&self) -> (u32, u32) {
        (self.width, self.height)
    }

    pub closed spec fn decodes(&self) -> u64 {
        self.decodes
    }

    pub closed spec fn handle(&self) -> Option<egui::TextureHandle> {
        self.texture
    }

    pub fn new() -> (r: ImageCache)
        ensures
            !r.loaded(),
            r.dims() == (DEFAULT_WIDTH, DEFAULT_HEIGHT),
            r.decodes() == 0,
    {
        ImageCache { texture: None, width: DEFAULT_WIDTH, height: DEFAULT_HEIGHT, decodes: 0 }
    }

    pub fn is_loaded(&self) -> (r: bool)
        ensures
            r == self.loaded(),
    {
        self.texture.is_some()
    }

    /// The image's size in pixels, or the default size while none is loaded.
    pub fn size(&self) -> (r: (u32, u32))
        ensures
            r == self.dims(),
    {
        (self.width, self.height)
    }

    /// How many times decoding has been attempted.
    pub fn decode_count(&self) -> (r: u64)
        ensures
            r == self.decodes(),
    {
        self.decodes
    }

    pub fn texture(&self) -> (r: Option<&egui::TextureHandle>)
        ensures
            r is None == self.handle() is None,
            r matches Some(t) ==> self.handle() == Some(*t),
    {
        match &self.texture {
            Some(t) => Some(t),
            None => None,
        }
    }

    /// Decodes `bytes` and uploads the result, unless a texture is already
    /// held. A failed decode leaves the cache empty, to be tried again later.
    pub fn ensure_loaded(&mut self, ctx: &egui::Context, bytes: &[u8])
        ensures
            load_transition(*old(self), *final(self), bytes@),
    {
        if self.texture.is_some() {
            return;
        }
        if self.decodes < u64::MAX {
            self.decodes = self.decodes + 1;
        }
        match decode_rgba(bytes) {
            Some(img) => {
                let w = img.width as usize;
                let h = img.height as usize;
                assert(w * h <= img.pixels@.len() && w * h * 4 == img.pixels@.len())
                    by (nonlinear_arith)
                    requires
                        img.pixels@.len() == 4 * img.width * img.height,
                        w == img.width,
                        h == img.height,
                ;
                let t = upload_texture(ctx, TEXTURE_NAME, w, h, &img.pixels);
                self.texture = Some(t);
                self.width = img.width;
                self.height = img.height;
            },
            None => {},
        }
    }
}

/// `ensure_loaded` is idempotent: after k calls on the same bytes, starting
/// from an empty cache, the texture handle and the size are those after the
/// first call. On bytes that decode, the first call loads the image, decoding
/// once, and every later call changes nothing, the count of decodes
/// included. On bytes that do not decode, every call leaves the cache empty
/// with its size unchanged.
pub proof fn lemma_load_is_idempotent(states: Seq<ImageCache>, bytes: Seq<u8>)
    requires
        states.len() >= 2,
        forall|j: int|
            0 <= j < states.len() - 1 ==> #[trigger] load_transition(
                states[j],
                states[j + 1],
                bytes,
            ),
        !states[0].loaded(),
    ensures
        forall|j: int|
            1 <= j < states.len() ==> {
                &&& #[trigger] states[j].handle() == states[1].handle()
                &&& states[j].dims() == states[1].dims()
            },
        decoded_size(bytes) matches Some((w, h)) ==> {
            &&& states[1].loaded()
            &&& states[1].dims() == (w, h)
            &&& states[0].decodes() < u64::MAX ==> states[1].decodes() == states[0].decodes() + 1
            &&& forall|j: int|
                1 <= j < states.len() ==> #[trigger] states[j].decodes() == states[1].decodes()
        },
        decoded_size(bytes) is None ==> forall|j: int|
            0 <= j < states.len() ==> {
                &&& !#[trigger] states[j].loaded()
                &&& states[j].dims() == states[0].dims()
            },
{
    let first: int = 0;
    assert(load_transition(states[first], states[first + 1], bytes));
    if decoded_size(bytes) is Some {
        assert forall|j: int| 1 <= j < states.len() implies #[trigger] states[j] == states[1] by {
            lemma_fixed_from(states, bytes, j);
        }
    } else {
        assert forall|j: int| 0 <= j < states.len() implies {
            &&& !#[trigger] states[j].loaded()
            &&& states[j].dims() == states[0].dims()
        } by {
            lemma_stays_empty(states, bytes, j);
        }
        assert forall|j: int| 1 <= j < states.len() implies {
            &&& #[trigger] states[j].handle() == states[1].handle()
            &&& states[j].dims() == states[1].dims()
        } by {
            lemma_stays_empty(states, bytes, j);
            lemma_stays_empty(states, bytes, 1);
        }
    }
}

proof fn lemma_stays_empty(states: Seq<ImageCache>, bytes: Seq<u8>, j: int)
    requires
        0 <= j < states.len(),
        forall|k: int|
            0 <= k < states.len() - 1 ==> #[trigger] load_transition(
                states[k],
                states[k + 1],
                bytes,
            ),
        !states[0].loaded(),
        decoded_size(bytes) is None,
    ensures
        !states[j].loaded(),
        states[j].dims() == states[0].dims(),
    decreases j,
{
    if j > 0 {
        let k = j - 1;
        lemma_stays_empty(states, bytes, k);
        assert(load_transition(states[k], states[k + 1], bytes));
    }
}

proof fn lemma_fixed_from(states: Seq<ImageCache>, bytes: Seq<u8>, j: int)
    requires
        1 <= j < states.len(),
        forall|k: int|
            0 <= k < states.len() - 1 ==> #[trigger] load_transition(
                states[k],
                states[k + 1],
                bytes,
            ),
        states[1].loaded(),
    ensures
        states[j] == states[1],
    decreases j,
{
    if j > 1 {
        lemma_fixed_from(states, bytes, j - 1);
        let k = j - 1;
        assert(load_transition(states[k], states[k + 1], bytes));
    }
}

} // verus!
