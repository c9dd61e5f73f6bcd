//! Configuration for a strip of APA102 LEDs driven over SPI.
//!
//! The controller owns the SPI writer and the framing options: how many end
//! frame bytes follow the LED data, their polarity, the order pixel colors
//! are transmitted in, and the strip-wide intensity byte. Pushing the bytes
//! out is the transport layer's affair; everything the protocol decides
//! about the data is configured and proved here.

use vstd::prelude::*;

verus! {

/// What order to transmit pixel colors. Different strips need their pixel
/// color data sent in different orders.
#[derive(Clone, Copy, Debug, PartialEq, Eq, Structural)]
pub enum PixelOrder {
    RGB,
    RBG,
    GRB,
    GBR,
    BRG,
    BGR,
}

/// A controller for a series of APA102 LEDs, generic over the SPI writer it
/// will hand its bytes to.
pub struct Apa102<SPI> {
    spi: SPI,
    end_frame_length: u8,
    invert_end_frame: bool,
    pixel_order: PixelOrder,
    global_intensity: u8,
}

impl<SPI> Apa102<SPI> {
    /// How many end-frame bytes are emitted after the LED data.
    pub closed spec fn spec_end_frame_length(&self) -> u8 {
        self.end_frame_length
    }

    /// Whether the end frame is sent inverted.
    pub closed spec fn spec_invert_end_frame(&self) -> bool {
        self.invert_end_frame
    }

    /// The configured pixel color order.
    pub closed spec fn spec_pixel_order(&self) -> PixelOrder {
        self.pixel_order
    }

    /// The strip-wide intensity byte, including its three leading one bits.
    pub closed spec fn spec_intensity(&self) -> u8 {
        self.global_intensity
    }

    /// A controller with the default framing: a four-byte non-inverted end
    /// frame, BGR pixel order, and full intensity.
    pub fn new(spi: SPI) -> (r: Apa102<SPI>)
        ensures
            r.spec_end_frame_length() == 4,
            r.spec_invert_end_frame() == false,
            r.spec_pixel_order() == PixelOrder::BGR,
            r.spec_intensity() == 0xFF,
    {
        Apa102 {
            spi,
            end_frame_length: 4,
            invert_end_frame: false,
            pixel_order: PixelOrder::BGR,
            global_intensity: 0xFF,
        }
    }

    /// Set how many end-frame bytes follow the LED data.
    pub fn end_frame_length(self, end_frame_length: u8) -> (r: Apa102<SPI>)
        ensures
            r.spec_end_frame_length() == end_frame_length,
            r.spec_invert_end_frame() == self.spec_invert_end_frame(),
            r.spec_pixel_order() == self.spec_pixel_order(),
            r.spec_intensity() == self.spec_intensity(),
    {
        Apa102 { end_frame_length, ..self }
    }

    /// Set the polarity of the end frame.
    pub fn invert_end_frame(self, invert_end_frame: bool) -> (r: Apa102<SPI>)
        ensures
            r.spec_invert_end_frame() == invert_end_frame,
            r.spec_end_frame_length() == self.spec_end_frame_length(),
            r.spec_pixel_order() == self.spec_pixel_order(),
            r.spec_intensity() == self.spec_intensity(),
    {
        Apa102 { invert_end_frame, ..self }
    }

    /// Set the order pixel colors are transmitted in.
    pub fn pixel_order(self, pixel_order: PixelOrder) -> (r: Apa102<SPI>)
        ensures
            r.spec_pixel_order() == pixel_order,
            r.spec_end_frame_length() == self.spec_end_frame_length(),
            r.spec_invert_end_frame() == self.spec_invert_end_frame(),
            r.spec_intensity() == self.spec_intensity(),
    {
        Apa102 { pixel_order, ..self }
    }

    /// Set the global intensity of all the LEDs: the five useful bits of
    /// `intensity` under the protocol's mandatory three leading one bits.
    pub fn set_intensity(&mut self, intensity: u8)
        ensures
            final(self).spec_intensity() == 0xE0 + (intensity >> 3u8),
            final(self).spec_end_frame_length() == old(self).spec_end_frame_length(),
            final(self).spec_invert_end_frame() == old(self).spec_invert_end_frame(),
            final(self).spec_pixel_order() == old(self).spec_pixel_order(),
    {
        proof {
            assert((intensity >> 3u8) <= 31) by (bit_vector);
        }
        self.global_intensity = 0xE0 + (intensity >> 3);
    }
}

} // verus!
