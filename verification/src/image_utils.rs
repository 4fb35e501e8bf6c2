use vstd::prelude::*;

verus! {

/// The device pixel formats the capture pipeline accepts.  All of them hold
/// four bytes per pixel; they differ in channel order and in how the device
/// interprets the bytes, which the byte-level pipeline does not care about.
#[derive(Clone, Copy, Debug, PartialEq, Eq, Structural)]
pub enum TextureFormat {
    Rgba8Unorm,
    Rgba8UnormSrgb,
    Rgba8Uint,
    Rgba8Sint,
    Rgba8Snorm,
    Bgra8Unorm,
    Bgra8UnormSrgb,
}

impl TextureFormat {
    /// Whether the device stores this format blue-green-red-alpha, so that a
    /// channel swap is needed to reach canonical red-green-blue-alpha order.
    pub open spec fn spec_is_bgra(self) -> bool {
        self is Bgra8Unorm || self is Bgra8UnormSrgb
    }

    #[verifier::when_used_as_spec(spec_is_bgra)]
    pub fn is_bgra(self) -> (r: bool)
        ensures
            r == self.spec_is_bgra(),
    {
        match self {
            TextureFormat::Bgra8Unorm | TextureFormat::Bgra8UnormSrgb => true,
            _ => false,
        }
    }

    /// The number of bytes one pixel of this format occupies.
    pub open spec fn spec_pixel_size(self) -> u32 {
        4
    }

    #[verifier::when_used_as_spec(spec_pixel_size)]
    pub fn pixel_size(self) -> (r: u32)
        ensures
            r == self.spec_pixel_size(),
    {
        4
    }
}

/// One four-byte pixel with its first and third channel exchanged: the swap
/// between blue-green-red-alpha and red-green-blue-alpha order.
pub open spec fn swap_rb(s: Seq<u8>, i: int) -> u8 {
    if i % 4 == 0 {
        s[i + 2]
    } else if i % 4 == 2 {
        s[i - 2]
    } else {
        s[i]
    }
}

/// A whole buffer with every pixel's first and third channel exchanged.
pub open spec fn swizzle_bgra(s: Seq<u8>) -> Seq<u8> {
    Seq::new(s.len(), |i: int| swap_rb(s, i))
}

/// What channel-order conversion produces: the buffer unchanged for formats
/// already in canonical order, the red/blue swap for the others.
pub open spec fn spec_to_rgba(s: Seq<u8>, format: TextureFormat) -> Seq<u8> {
    if format.spec_is_bgra() {
        swizzle_bgra(s)
    } else {
        s
    }
}

/// Channel-order conversion is self-inverse: converting a buffer and then
/// converting the result again reproduces the original bytes, for every
/// format and every buffer of whole pixels.
pub proof fn lemma_to_rgba_self_inverse(s: Seq<u8>, format: TextureFormat)
    requires
        s.len() % 4 == 0,
    ensures
        spec_to_rgba(spec_to_rgba(s, format), format) == s,
{
    if format.spec_is_bgra() {
        let t = swizzle_bgra(s);
        assert forall|i: int| 0 <= i < s.len() implies swizzle_bgra(t)[i] == s[i] by {
            if i % 4 == 0 {
                assert((i + 2) % 4 == 2);
            } else if i % 4 == 2 {
                assert((i - 2) % 4 == 0);
            }
        }
        assert(swizzle_bgra(t) =~= s);
    }
}

/// Convert a buffer of whole pixels from the device's native channel order to
/// canonical red-green-blue-alpha order.
pub fn to_rgba(buffer: Vec<u8>, format: TextureFormat) -> (r: Vec<u8>)
    requires
        buffer@.len() % 4 == 0,
    ensures
        r@ == spec_to_rgba(buffer@, format),
{
    match format {
        TextureFormat::Bgra8Unorm | TextureFormat::Bgra8UnormSrgb => {
            let n = buffer.len();
            let mut out: Vec<u8> = Vec::new();
            let mut i: usize = 0;
            while i < n
                invariant
                    n == buffer@.len(),
                    n % 4 == 0,
                    i % 4 == 0,
                    i <= n,
                    out@.len() == i,
                    forall|j: int| 0 <= j < i ==> out@[j] == swap_rb(buffer@, j),
                decreases n - i,
            {
                assert(i + 4 <= n);
                out.push(buffer[i + 2]);
                out.push(buffer[i + 1]);
                out.push(buffer[i]);
                out.push(buffer[i + 3]);
                proof {
                    assert((i + 1) % 4 == 1 && (i + 2) % 4 == 2 && (i + 3) % 4 == 3);
                }
                i = i + 4;
            }
            proof {
                assert(i == n);
                assert(out@ =~= spec_to_rgba(buffer@, format));
            }
            out
        },
        _ => buffer,
    }
}

/// Convert a buffer of whole pixels to canonical order, grouped four bytes to
/// a pixel.
pub fn to_grouped_rgba(buffer: &Vec<u8>, format: TextureFormat) -> (r: Vec<[u8; 4]>)
    requires
        buffer@.len() % 4 == 0,
    ensures
        r@.len() == buffer@.len() / 4,
        forall|k: int|
            0 <= k < r@.len() ==> r@[k]@ =~= spec_to_rgba(buffer@, format).subrange(
                4 * k,
                4 * k + 4,
            ),
{
    let n = buffer.len();
    let mut out: Vec<[u8; 4]> = Vec::new();
    let mut i: usize = 0;
    while i < n
        invariant
            n == buffer@.len(),
            n % 4 == 0,
            i % 4 == 0,
            i <= n,
            out@.len() == i / 4,
            forall|k: int|
                0 <= k < out@.len() ==> out@[k]@ =~= spec_to_rgba(buffer@, format).subrange(
                    4 * k,
                    4 * k + 4,
                ),
        decreases n - i,
    {
        assert(i + 4 <= n);
        let px: [u8; 4] = match format {
            TextureFormat::Bgra8Unorm | TextureFormat::Bgra8UnormSrgb => [
                buffer[i + 2],
                buffer[i + 1],
                buffer[i],
                buffer[i + 3],
            ],
            _ => [buffer[i], buffer[i + 1], buffer[i + 2], buffer[i + 3]],
        };
        out.push(px);
        proof {
            assert((i + 1) % 4 == 1 && (i + 2) % 4 == 2 && (i + 3) % 4 == 3);
            assert(out@.last()@ =~= spec_to_rgba(buffer@, format).subrange(
                i as int,
                i + 4,
            ));
        }
        i = i + 4;
    }
    out
}

} // verus!
