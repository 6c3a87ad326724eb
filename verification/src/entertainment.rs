//! Encoding of Hue Entertainment stream messages (protocol version 2, RGB color space).
//!
//! A message is a 52-byte header followed by one 7-byte record per channel:
//! the channel id, then red, green and blue as big-endian 16-bit values.
use vstd::prelude::*;
use vstd::utf8::is_ascii_chars;
use vstd::string::StringSliceAdditionalSpecFns;
use crate::color::HueColor;
use crate::error::HueError;
use crate::text::chars_of;
use crate::color::all_ascii;

verus! {

broadcast use vstd::string::group_string_axioms;

/// The protocol magic `HueStream`.
pub const HEADER: [u8; 9] = [0x48, 0x75, 0x65, 0x53, 0x74, 0x72, 0x65, 0x61, 0x6d];

/// Major protocol version.
pub const VERSION_MAJOR: u8 = 0x02;

/// Minor protocol version.
pub const VERSION_MINOR: u8 = 0x00;

/// Size of the fixed message header.
pub const MESSAGE_HEADER_SIZE: usize = 52;

/// Size of one channel record.
pub const CHANNEL_DATA_SIZE: usize = 7;

/// Length of an entertainment configuration id (a UUID in text form).
pub const CONFIG_ID_SIZE: usize = 36;

/// Color-space byte for RGB.
pub const COLORSPACE_RGB: u8 = 0x00;

/// One channel and the color it should show.
#[derive(Debug, Clone, Copy, PartialEq, Eq, Structural)]
pub struct ChannelColor {
    pub channel_id: u8,
    pub color: HueColor,
}

/// The bytes of `HueStream`.
pub open spec fn header_magic() -> Seq<u8> {
    seq![0x48u8, 0x75u8, 0x65u8, 0x53u8, 0x74u8, 0x72u8, 0x65u8, 0x61u8, 0x6du8]
}

/// 8-bit channel value widened to 16 bits (`v * 257`, so 255 maps to 65535).
pub open spec fn scaled(v: u8) -> u16 {
    (v * 257) as u16
}

/// High byte of a big-endian 16-bit value.
pub open spec fn be_high(v: u16) -> u8 {
    (v / 256) as u8
}

/// Low byte of a big-endian 16-bit value.
pub open spec fn be_low(v: u16) -> u8 {
    (v % 256) as u8
}

/// The 7-byte record of one channel.
pub open spec fn channel_record(c: ChannelColor) -> Seq<u8> {
    let r = scaled(c.color.red);
    let g = scaled(c.color.green);
    let b = scaled(c.color.blue);
    seq![c.channel_id, be_high(r), be_low(r), be_high(g), be_low(g), be_high(b), be_low(b)]
}

/// The records of all channels, in order.
pub open spec fn channel_records(channels: Seq<ChannelColor>) -> Seq<u8>
    decreases channels.len(),
{
    if channels.len() == 0 {
        Seq::empty()
    } else {
        channel_records(channels.drop_last()) + channel_record(channels.last())
    }
}

/// The 52-byte header: magic, version 2.0, sequence, two reserved bytes, color space,
/// one reserved byte, then the 36-byte configuration id.
pub open spec fn message_header(config_id: Seq<u8>, sequence: u8) -> Seq<u8> {
    header_magic() + seq![VERSION_MAJOR, VERSION_MINOR, sequence, 0u8, 0u8, COLORSPACE_RGB, 0u8]
        + config_id
}

/// A complete RGB stream message.
pub open spec fn rgb_message(config_id: Seq<u8>, sequence: u8, channels: Seq<ChannelColor>) -> Seq<
    u8,
> {
    message_header(config_id, sequence) + channel_records(channels)
}

/// The bytes of an ASCII text.
pub open spec fn ascii_bytes(s: Seq<char>) -> Seq<u8> {
    s.map_values(|c: char| c as u8)
}

/// A configuration id is accepted when it is 36 ASCII characters long.
pub open spec fn valid_config_id(id: Seq<char>) -> bool {
    id.len() == CONFIG_ID_SIZE && is_ascii_chars(id)
}

/// The record bytes have seven bytes per channel.
pub proof fn lemma_channel_records_len(channels: Seq<ChannelColor>)
    ensures
        channel_records(channels).len() == 7 * channels.len(),
    decreases channels.len(),
{
    if channels.len() > 0 {
        lemma_channel_records_len(channels.drop_last());
    }
}

/// Both bytes of a widened channel value repeat the 8-bit value.
pub proof fn lemma_scaled_bytes(v: u8)
    ensures
        be_high(scaled(v)) == v,
        be_low(scaled(v)) == v,
{
    assert(v * 257 == v * 256 + v) by (nonlinear_arith);
    assert((v * 256 + v) / 256 == v as int) by (nonlinear_arith)
        requires
            0 <= v < 256,
    ;
    assert((v * 256 + v) % 256 == v as int) by (nonlinear_arith)
        requires
            0 <= v < 256,
    ;
}

/// Byte `7 * k + j` of the records is byte `j` of channel `k`'s record.
pub proof fn lemma_channel_records_index(channels: Seq<ChannelColor>, k: int, j: int)
    requires
        0 <= k < channels.len(),
        0 <= j < 7,
    ensures
        channel_records(channels)[7 * k + j] == channel_record(channels[k])[j],
    decreases channels.len(),
{
    let n = channels.len();
    lemma_channel_records_len(channels.drop_last());
    if k < n - 1 {
        lemma_channel_records_index(channels.drop_last(), k, j);
    }
}

/// Layout of an RGB stream message, as the Hue Entertainment protocol defines it:
/// `HueStream`, version 2.0, the sequence number at byte 11, RGB color space at byte 14,
/// the configuration id at bytes 16..52, then seven bytes per channel, in order:
/// its id and its red, green and blue values, each as two equal bytes.
pub proof fn law_rgb_message_layout(config_id: Seq<u8>, sequence: u8, channels: Seq<ChannelColor>)
    requires
        config_id.len() == CONFIG_ID_SIZE,
    ensures
        ({
            let m = rgb_message(config_id, sequence, channels);
            &&& m.len() == MESSAGE_HEADER_SIZE + CHANNEL_DATA_SIZE * channels.len()
            &&& m.subrange(0, 9) == header_magic()
            &&& m[9] == VERSION_MAJOR
            &&& m[10] == VERSION_MINOR
            &&& m[11] == sequence
            &&& m[14] == COLORSPACE_RGB
            &&& m.subrange(16, 52) == config_id
            &&& forall|k: int|
                0 <= k < channels.len() ==> {
                    let o = 52 + 7 * k;
                    &&& m[o] == (#[trigger] channels[k]).channel_id
                    &&& m[o + 1] == channels[k].color.red && m[o + 2] == channels[k].color.red
                    &&& m[o + 3] == channels[k].color.green && m[o + 4]
                        == channels[k].color.green
                    &&& m[o + 5] == channels[k].color.blue && m[o + 6] == channels[k].color.blue
                }
        }),
{
    let m = rgb_message(config_id, sequence, channels);
    let h = message_header(config_id, sequence);
    lemma_channel_records_len(channels);
    assert(h.len() == 52);
    assert(m.subrange(0, 9) =~= header_magic());
    assert(m.subrange(16, 52) =~= config_id);
    assert forall|k: int| 0 <= k < channels.len() implies {
        let o = 52 + 7 * k;
        &&& m[o] == (#[trigger] channels[k]).channel_id
        &&& m[o + 1] == channels[k].color.red && m[o + 2] == channels[k].color.red
        &&& m[o + 3] == channels[k].color.green && m[o + 4] == channels[k].color.green
        &&& m[o + 5] == channels[k].color.blue && m[o + 6] == channels[k].color.blue
    } by {
        let c = channels[k];
        lemma_scaled_bytes(c.color.red);
        lemma_scaled_bytes(c.color.green);
        lemma_scaled_bytes(c.color.blue);
        lemma_channel_records_index(channels, k, 0);
        lemma_channel_records_index(channels, k, 1);
        lemma_channel_records_index(channels, k, 2);
        lemma_channel_records_index(channels, k, 3);
        lemma_channel_records_index(channels, k, 4);
        lemma_channel_records_index(channels, k, 5);
        lemma_channel_records_index(channels, k, 6);
    }
}

/// An encoded stream message.
#[derive(Debug, Clone, PartialEq, Eq)]
pub struct HueStreamMessage {
    bytes: Vec<u8>,
}

impl View for HueStreamMessage {
    type V = Seq<u8>;

    closed spec fn view(&self) -> Seq<u8> {
        self.bytes@
    }
}

impl HueStreamMessage {
    /// The message bytes.
    pub fn as_bytes(&self) -> (r: &[u8])
        ensures
            r@ == self@,
    {
        self.bytes.as_slice()
    }

    /// The message bytes, by value.
    pub fn into_bytes(self) -> (r: Vec<u8>)
        ensures
            r@ == self@,
    {
        self.bytes
    }
}

/// `8-bit -> 16-bit` channel scaling (`v * 257`, the same as `round(v * 65535 / 255)`).
pub fn scale_color(value: u8) -> (r: u16)
    ensures
        r == scaled(value),
        r == value * 257,
{
    (value as u16) * 257
}

/// Appends `value` in big-endian order.
pub fn write_u16_be(bytes: &mut Vec<u8>, value: u16)
    ensures
        final(bytes)@ == old(bytes)@.push(be_high(value)).push(be_low(value)),
{
    let hi = (value >> 8) as u8;
    let lo = value as u8;
    assert(hi == be_high(value) && lo == be_low(value)) by (bit_vector)
        requires
            hi == (value >> 8) as u8,
            lo == value as u8,
    ;
    bytes.push(hi);
    bytes.push(lo);
}

/// Writes a whole RGB message into `bytes`, replacing what it held.
pub fn write_rgb_frame(bytes: &mut Vec<u8>, config_id: &[u8], sequence: u8, channels: &[ChannelColor])
    ensures
        final(bytes)@ == rgb_message(config_id@, sequence, channels@),
{
    bytes.clear();
    for i in 0..HEADER.len()
        invariant
            bytes@ == header_magic().take(i as int),
    {
        bytes.push(HEADER[i]);
        assert(header_magic().take(i + 1) =~= header_magic().take(i as int).push(header_magic()[i as int]));
    }
    assert(header_magic().take(9) =~= header_magic());
    bytes.push(VERSION_MAJOR);
    bytes.push(VERSION_MINOR);
    bytes.push(sequence);
    bytes.push(0);
    bytes.push(0);
    bytes.push(COLORSPACE_RGB);
    bytes.push(0);
    let ghost head = bytes@;
    assert(head =~= header_magic() + seq![VERSION_MAJOR, VERSION_MINOR, sequence, 0u8, 0u8, COLORSPACE_RGB, 0u8]);
    for i in 0..config_id.len()
        invariant
            bytes@ == head + config_id@.take(i as int),
    {
        bytes.push(config_id[i]);
        assert(config_id@.take(i + 1) =~= config_id@.take(i as int).push(config_id@[i as int]));
    }
    assert(config_id@.take(config_id.len() as int) =~= config_id@);
    let ghost header = bytes@;
    for k in 0..channels.len()
        invariant
            header == message_header(config_id@, sequence),
            bytes@ == header + channel_records(channels@.take(k as int)),
    {
        let channel = channels[k];
        bytes.push(channel.channel_id);
        write_u16_be(bytes, scale_color(channel.color.red));
        write_u16_be(bytes, scale_color(channel.color.green));
        write_u16_be(bytes, scale_color(channel.color.blue));
        assert(channels@.take(k + 1).drop_last() =~= channels@.take(k as int));
        assert(bytes@ =~= header + channel_records(channels@.take(k + 1)));
    }
    assert(channels@.take(channels.len() as int) =~= channels@);
}

proof fn lemma_ascii_str_bytes(s: &str)
    requires
        is_ascii_chars(s@),
    ensures
        s.spec_bytes() == ascii_bytes(s@),
        s.spec_bytes().len() == s@.len(),
{
    vstd::string::is_ascii_spec_bytes(s);
    assert(s.spec_bytes() =~= ascii_bytes(s@));
}

/// Checks the configuration id, as `validate_config_id` does before encoding.
pub fn validate_config_id(config_id: &str) -> (r: Result<(), HueError>)
    ensures
        r is Ok <==> valid_config_id(config_id@),
        r matches Err(e) ==> e matches HueError::InvalidEntertainmentConfigId(s) && s@ == config_id@,
{
    let chars = chars_of(config_id);
    if chars.len() != CONFIG_ID_SIZE || !all_ascii(&chars) {
        return Err(HueError::InvalidEntertainmentConfigId(config_id.to_owned()));
    }
    Ok(())
}

/// One frame of the stream, given by its configuration id, sequence and channel colors.
#[derive(Debug, Clone)]
pub struct HueStreamFrame {
    pub entertainment_config_id: String,
    pub sequence: u8,
    pub channels: Vec<ChannelColor>,
}

impl HueStreamFrame {
    /// Encodes the frame as an RGB message; the configuration id must be 36 ASCII characters.
    pub fn encode_rgb(&self) -> (r: Result<HueStreamMessage, HueError>)
        ensures
            r is Ok <==> valid_config_id(self.entertainment_config_id@),
            r matches Ok(m) ==> m@ == rgb_message(
                ascii_bytes(self.entertainment_config_id@),
                self.sequence,
                self.channels@,
            ),
            r matches Err(e) ==> e matches HueError::InvalidEntertainmentConfigId(s) && s@
                == self.entertainment_config_id@,
    {
        let id = self.entertainment_config_id.as_str();
        validate_config_id(id)?;
        proof {
            lemma_ascii_str_bytes(id);
        }
        let mut bytes: Vec<u8> = Vec::new();
        write_rgb_frame(&mut bytes, id.as_bytes(), self.sequence, self.channels.as_slice());
        Ok(HueStreamMessage { bytes })
    }
}

/// A reusable encoder for one configuration id.
#[derive(Debug, Clone)]
pub struct HueStreamEncoder {
    config_id: Vec<u8>,
    bytes: Vec<u8>,
}

impl HueStreamEncoder {
    /// The configuration id bytes that every message of this encoder carries.
    pub closed spec fn config_id_bytes(&self) -> Seq<u8> {
        self.config_id@
    }

    /// An encoder for `entertainment_config_id`; `channel_count` sizes its buffer.
    pub fn new(entertainment_config_id: &str, channel_count: usize) -> (r: Result<Self, HueError>)
        ensures
            r is Ok <==> valid_config_id(entertainment_config_id@),
            r matches Ok(e) ==> e.config_id_bytes() == ascii_bytes(entertainment_config_id@),
            r matches Err(e) ==> e matches HueError::InvalidEntertainmentConfigId(s) && s@
                == entertainment_config_id@,
    {
        validate_config_id(entertainment_config_id)?;
        proof {
            lemma_ascii_str_bytes(entertainment_config_id);
        }
        let bytes_in = entertainment_config_id.as_bytes();
        let mut config_id: Vec<u8> = Vec::new();
        for i in 0..bytes_in.len()
            invariant
                config_id@ == bytes_in@.take(i as int),
        {
            config_id.push(bytes_in[i]);
            assert(bytes_in@.take(i + 1) =~= bytes_in@.take(i as int).push(bytes_in@[i as int]));
        }
        assert(bytes_in@.take(bytes_in.len() as int) =~= bytes_in@);
        let capacity = match channel_count.checked_mul(CHANNEL_DATA_SIZE) {
            Some(n) => n.checked_add(MESSAGE_HEADER_SIZE).unwrap_or(0),
            None => 0,
        };
        Ok(HueStreamEncoder { config_id, bytes: Vec::with_capacity(capacity) })
    }

    /// Encodes one RGB message into the encoder's buffer and returns it.
    pub fn encode_rgb(&mut self, sequence: u8, channels: &[ChannelColor]) -> (r: &[u8])
        ensures
            r@ == rgb_message(old(self).config_id_bytes(), sequence, channels@),
            final(self).config_id_bytes() == old(self).config_id_bytes(),
    {
        write_rgb_frame(&mut self.bytes, self.config_id.as_slice(), sequence, channels);
        self.bytes.as_slice()
    }
}

} // verus!
