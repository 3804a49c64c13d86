//! The command lines of the programs that do the coding: ffmpeg and openssl.

use crate::args::texts;
use crate::text::{decimal, decimal_of};
use vstd::prelude::*;
use vstd::string::*;

verus! {

/// The texts of a row of words.
pub open spec fn words(ws: Seq<&str>) -> Seq<Seq<char>> {
    Seq::new(ws.len(), |i: int| ws[i]@)
}

fn extend(v: &mut Vec<String>, ws: &[&str])
    ensures
        texts(final(v)@) == texts(old(v)@) + words(ws@),
{
    let mut i: usize = 0;
    while i < ws.len()
        invariant
            i <= ws@.len(),
            texts(v@) == texts(old(v)@) + words(ws@.take(i as int)),
        decreases ws.len() - i,
    {
        let ghost before = v@;
        v.push(ws[i].to_owned());
        proof {
            assert(texts(v@) =~= texts(before).push(ws@[i as int]@));
            assert(words(ws@.take(i + 1)) =~= words(ws@.take(i as int)).push(ws@[i as int]@));
        }
        i += 1;
    }
    proof {
        assert(ws@.take(i as int) =~= ws@);
    }
}

/// Keeps ffmpeg quiet but for errors.
pub open spec fn quiet() -> Seq<Seq<char>> {
    seq!["-hide_banner"@, "-loglevel"@, "error"@]
}

// ------------------------------------------------------------ probing

/// Arguments of ffmpeg for encoding one small frame with NVENC to nowhere.
pub open spec fn probe_command() -> Seq<Seq<char>> {
    quiet() + seq!["-f"@, "lavfi"@, "-i"@, "color=size=256x256:rate=1"@] + seq![
        "-frames:v"@,
        "1"@,
        "-c:v"@,
        "h264_nvenc"@,
        "-f"@,
        "null"@,
        "-"@,
    ]
}

/// The command that succeeds exactly if NVENC can be used.
pub fn probe_args() -> (r: Vec<String>)
    ensures
        texts(r@) == probe_command(),
{
    let mut v: Vec<String> = Vec::new();
    extend(&mut v, ["-hide_banner", "-loglevel", "error"].as_slice());
    extend(&mut v, ["-f", "lavfi", "-i", "color=size=256x256:rate=1"].as_slice());
    extend(
        &mut v,
        ["-frames:v", "1", "-c:v", "h264_nvenc", "-f", "null", "-"].as_slice(),
    );
    proof {
        assert(texts(v@) =~= probe_command());
    }
    v
}

// ------------------------------------------------------------ encoding

/// What the encoder's output is wrapped in.
#[derive(Clone, Copy, PartialEq, Eq, Structural, Debug)]
pub enum Container {
    /// Bare Annex B.
    H264,
    /// One RIFF chunk per frame, with its exact size.
    Avi,
}

impl Container {
    /// ffmpeg's name for it.
    pub open spec fn text(self) -> Seq<char> {
        match self {
            Container::H264 => "h264"@,
            Container::Avi => "avi"@,
        }
    }

    /// Gives ffmpeg's name for it.
    pub fn name(self) -> (r: &'static str)
        ensures
            r@ == self.text(),
    {
        match self {
            Container::H264 => "h264",
            Container::Avi => "avi",
        }
    }
}

/// Raw frames come in on the standard input.
pub open spec fn raw_input(size: Seq<char>, fps: Seq<char>) -> Seq<Seq<char>> {
    seq![
        "-f"@,
        "rawvideo"@,
        "-pix_fmt"@,
        "bgra"@,
        "-video_size"@,
        size,
        "-framerate"@,
        fps,
        "-i"@,
        "pipe:0"@,
        "-an"@,
    ]
}

/// NVENC takes the frames as they are and converts colours on the GPU. Constrained
/// baseline, no B-frames, and a variable rate that is capped.
pub open spec fn nvenc_codec(bitrate: Seq<char>) -> Seq<Seq<char>> {
    seq![
        "-c:v"@,
        "h264_nvenc"@,
        "-pix_fmt"@,
        "bgra"@,
        "-profile:v"@,
        "baseline"@,
        "-preset"@,
        "p1"@,
        "-tune"@,
        "ll"@,
        "-rc"@,
        "vbr"@,
    ] + rate(bitrate) + seq!["-zerolatency"@, "1"@, "-delay"@, "0"@, "-aud"@, "1"@]
}

/// Without NVENC the frames are converted and encoded on the CPU.
pub open spec fn x264_codec(bitrate: Seq<char>) -> Seq<Seq<char>> {
    seq![
        "-c:v"@,
        "libx264"@,
        "-pix_fmt"@,
        "yuv420p"@,
        "-preset"@,
        "ultrafast"@,
        "-tune"@,
        "zerolatency"@,
    ] + rate(bitrate) + seq!["-aud"@, "1"@]
}

/// The rate, its cap, a buffer of one second, a key frame every 600 frames and no
/// B-frames.
pub open spec fn rate(bitrate: Seq<char>) -> Seq<Seq<char>> {
    seq![
        "-b:v"@,
        bitrate,
        "-maxrate"@,
        bitrate,
        "-bufsize"@,
        bitrate,
        "-g"@,
        "600"@,
        "-bf"@,
        "0"@,
    ]
}

/// The encoded stream goes out on the standard output, each packet at once.
pub open spec fn encoded_output(container: Container) -> Seq<Seq<char>> {
    seq!["-f"@, container.text(), "-flush_packets"@, "1"@, "pipe:1"@]
}

/// The size of a picture as ffmpeg takes it.
pub open spec fn size_text(w: u16, h: u16) -> Seq<char> {
    decimal_of(w as nat) + "x"@ + decimal_of(h as nat)
}

/// Arguments of ffmpeg for encoding raw frames.
pub open spec fn encoder_command(
    w: u16,
    h: u16,
    fps: u32,
    bitrate: Seq<char>,
    nvenc: bool,
    container: Container,
) -> Seq<Seq<char>> {
    quiet() + raw_input(size_text(w, h), decimal_of(fps as nat)) + (if nvenc {
        nvenc_codec(bitrate)
    } else {
        x264_codec(bitrate)
    }) + encoded_output(container)
}

fn extend_rate(v: &mut Vec<String>, bitrate: &str)
    ensures
        texts(final(v)@) == texts(old(v)@) + rate(bitrate@),
{
    extend(
        v,
        [
            "-b:v",
            bitrate,
            "-maxrate",
            bitrate,
            "-bufsize",
            bitrate,
            "-g",
            "600",
            "-bf",
            "0",
        ].as_slice(),
    );
    proof {
        assert(texts(v@) =~= texts(old(v)@) + rate(bitrate@));
    }
}

fn extend_codec(v: &mut Vec<String>, bitrate: &str, nvenc: bool)
    ensures
        texts(final(v)@) == texts(old(v)@) + (if nvenc {
            nvenc_codec(bitrate@)
        } else {
            x264_codec(bitrate@)
        }),
{
    if nvenc {
        extend(
            v,
            [
                "-c:v",
                "h264_nvenc",
                "-pix_fmt",
                "bgra",
                "-profile:v",
                "baseline",
                "-preset",
                "p1",
                "-tune",
                "ll",
                "-rc",
                "vbr",
            ].as_slice(),
        );
        extend_rate(v, bitrate);
        extend(v, ["-zerolatency", "1", "-delay", "0", "-aud", "1"].as_slice());
        proof {
            assert(texts(v@) =~= texts(old(v)@) + nvenc_codec(bitrate@));
        }
    } else {
        extend(
            v,
            [
                "-c:v",
                "libx264",
                "-pix_fmt",
                "yuv420p",
                "-preset",
                "ultrafast",
                "-tune",
                "zerolatency",
            ].as_slice(),
        );
        extend_rate(v, bitrate);
        extend(v, ["-aud", "1"].as_slice());
        proof {
            assert(texts(v@) =~= texts(old(v)@) + x264_codec(bitrate@));
        }
    }
}

/// The command that encodes raw frames of a size, at a rate.
pub fn encoder_args(
    w: u16,
    h: u16,
    fps: u32,
    bitrate: &str,
    nvenc: bool,
    container: Container,
) -> (r: Vec<String>)
    ensures
        texts(r@) == encoder_command(w, h, fps, bitrate@, nvenc, container),
{
    let mut size: String = decimal(w as u32);
    size.append("x");
    size.append(decimal(h as u32).as_str());
    let rate_text: String = decimal(fps);
    let mut v: Vec<String> = Vec::new();
    extend(&mut v, ["-hide_banner", "-loglevel", "error"].as_slice());
    proof {
        assert(texts(v@) =~= quiet());
    }
    extend(
        &mut v,
        [
            "-f",
            "rawvideo",
            "-pix_fmt",
            "bgra",
            "-video_size",
            size.as_str(),
            "-framerate",
            rate_text.as_str(),
            "-i",
            "pipe:0",
            "-an",
        ].as_slice(),
    );
    proof {
        assert(texts(v@) =~= quiet() + raw_input(size_text(w, h), decimal_of(fps as nat)));
    }
    extend_codec(&mut v, bitrate, nvenc);
    extend(&mut v, ["-f", container.name(), "-flush_packets", "1", "pipe:1"].as_slice());
    proof {
        assert(texts(v@) =~= encoder_command(w, h, fps, bitrate@, nvenc, container));
    }
    v
}

// ------------------------------------------------------------ decoding

/// Arguments of ffmpeg for decoding the stream to raw frames. Decoding is handed to the
/// GPU, or done by one thread, as each more would add a frame of latency.
pub open spec fn decoder_command(hwaccel: Option<Seq<char>>) -> Seq<Seq<char>> {
    quiet() + seq!["-probesize"@, "32"@, "-analyzeduration"@, "0"@, "-flags"@, "low_delay"@] + (
    match hwaccel {
        Some(hw) => seq!["-hwaccel"@, hw],
        None => seq!["-threads"@, "1"@],
    }) + seq![
        "-f"@,
        "h264"@,
        "-i"@,
        "pipe:0"@,
        "-fps_mode"@,
        "passthrough"@,
        "-f"@,
        "rawvideo"@,
        "-pix_fmt"@,
        "bgra"@,
        "pipe:1"@,
    ]
}

/// The command that decodes the stream.
pub fn decoder_args(hwaccel: Option<String>) -> (r: Vec<String>)
    ensures
        texts(r@) == decoder_command(crate::args::maybe(hwaccel)),
{
    let mut v: Vec<String> = Vec::new();
    extend(&mut v, ["-hide_banner", "-loglevel", "error"].as_slice());
    extend(
        &mut v,
        ["-probesize", "32", "-analyzeduration", "0", "-flags", "low_delay"].as_slice(),
    );
    match &hwaccel {
        Some(hw) => extend(&mut v, ["-hwaccel", hw.as_str()].as_slice()),
        None => extend(&mut v, ["-threads", "1"].as_slice()),
    }
    extend(
        &mut v,
        [
            "-f",
            "h264",
            "-i",
            "pipe:0",
            "-fps_mode",
            "passthrough",
            "-f",
            "rawvideo",
            "-pix_fmt",
            "bgra",
            "pipe:1",
        ].as_slice(),
    );
    proof {
        assert(texts(v@) =~= decoder_command(crate::args::maybe(hwaccel)));
    }
    v
}

// ------------------------------------------------------------ the certificate

/// Arguments of openssl for a self-signed certificate of ten years.
pub open spec fn cert_command(key: Seq<char>, cert: Seq<char>) -> Seq<Seq<char>> {
    seq![
        "req"@,
        "-x509"@,
        "-newkey"@,
        "rsa:2048"@,
        "-nodes"@,
        "-days"@,
        "3650"@,
        "-subj"@,
        "/CN=rdesk"@,
        "-keyout"@,
        key,
        "-out"@,
        cert,
    ]
}

/// The command that makes a certificate, by what there is already: none where both the
/// certificate and its key are there.
pub fn cert_args(cert_exists: bool, key_exists: bool, key: &str, cert: &str) -> (r: Option<
    Vec<String>,
>)
    ensures
        r is Some <==> !cert_exists || !key_exists,
        r matches Some(v) ==> texts(v@) == cert_command(key@, cert@),
{
    if cert_exists && key_exists {
        return None;
    }
    let mut v: Vec<String> = Vec::new();
    extend(
        &mut v,
        [
            "req",
            "-x509",
            "-newkey",
            "rsa:2048",
            "-nodes",
            "-days",
            "3650",
            "-subj",
            "/CN=rdesk",
            "-keyout",
            key,
            "-out",
            cert,
        ].as_slice(),
    );
    proof {
        assert(texts(v@) =~= cert_command(key@, cert@));
    }
    Some(v)
}

// ------------------------------------------------------------ laws

/// What ffmpeg is told of its input and its output does not depend on the encoder, and the
/// encoder does not depend on them: frames of the given size and rate come from the
/// standard input, the encoder is NVENC exactly if that is asked for, and the output is
/// named by the container alone and goes to the standard output.
pub proof fn law_encoder_is_the_one_asked_for(
    w: u16,
    h: u16,
    fps: u32,
    bitrate: Seq<char>,
    nvenc: bool,
    container: Container,
)
    ensures
        ({
            let cmd = encoder_command(w, h, fps, bitrate, nvenc, container);
            let size = decimal_of(w as nat) + "x"@ + decimal_of(h as nat);
            let rate = decimal_of(fps as nat);
            let name = if container == Container::Avi {
                "avi"@
            } else {
                "h264"@
            };
            let n = cmd.len() as int;
            &&& n == if nvenc {
                47int
            } else {
                39int
            }
            &&& cmd[0] == "-hide_banner"@
            &&& cmd[1] == "-loglevel"@
            &&& cmd[2] == "error"@
            &&& cmd[3] == "-f"@
            &&& cmd[4] == "rawvideo"@
            &&& cmd[5] == "-pix_fmt"@
            &&& cmd[6] == "bgra"@
            &&& cmd[7] == "-video_size"@
            &&& cmd[8] == size
            &&& cmd[9] == "-framerate"@
            &&& cmd[10] == rate
            &&& cmd[11] == "-i"@
            &&& cmd[12] == "pipe:0"@
            &&& cmd[13] == "-an"@
            &&& cmd[14] == "-c:v"@
            &&& cmd[15] == if nvenc {
                "h264_nvenc"@
            } else {
                "libx264"@
            }
            &&& cmd[16] == "-pix_fmt"@
            &&& cmd[17] == if nvenc {
                "bgra"@
            } else {
                "yuv420p"@
            }
            &&& cmd[n - 5] == "-f"@
            &&& cmd[n - 4] == name
            &&& cmd[n - 3] == "-flush_packets"@
            &&& cmd[n - 2] == "1"@
            &&& cmd[n - 1] == "pipe:1"@
        }),
{
}

/// What follows NVENC's name in the command: constrained baseline, low latency, and a rate
/// that is capped, with the given rate in three places.
pub proof fn law_nvenc_is_tuned(
    w: u16,
    h: u16,
    fps: u32,
    bitrate: Seq<char>,
    container: Container,
)
    ensures
        ({
            let cmd = encoder_command(w, h, fps, bitrate, true, container);
            &&& cmd[15] == "h264_nvenc"@
            &&& cmd[16] == "-pix_fmt"@
            &&& cmd[17] == "bgra"@
            &&& cmd[18] == "-profile:v"@
            &&& cmd[19] == "baseline"@
            &&& cmd[20] == "-preset"@
            &&& cmd[21] == "p1"@
            &&& cmd[22] == "-tune"@
            &&& cmd[23] == "ll"@
            &&& cmd[24] == "-rc"@
            &&& cmd[25] == "vbr"@
            &&& cmd[26] == "-b:v"@
            &&& cmd[27] == bitrate
            &&& cmd[28] == "-maxrate"@
            &&& cmd[29] == bitrate
            &&& cmd[30] == "-bufsize"@
            &&& cmd[31] == bitrate
            &&& cmd[32] == "-g"@
            &&& cmd[33] == "600"@
            &&& cmd[34] == "-bf"@
            &&& cmd[35] == "0"@
            &&& cmd[36] == "-zerolatency"@
            &&& cmd[37] == "1"@
            &&& cmd[38] == "-delay"@
            &&& cmd[39] == "0"@
            &&& cmd[40] == "-aud"@
            &&& cmd[41] == "1"@
        }),
{
}

/// What follows the name of the encoder on the CPU.
pub proof fn law_x264_is_tuned(
    w: u16,
    h: u16,
    fps: u32,
    bitrate: Seq<char>,
    container: Container,
)
    ensures
        ({
            let cmd = encoder_command(w, h, fps, bitrate, false, container);
            &&& cmd[15] == "libx264"@
            &&& cmd[16] == "-pix_fmt"@
            &&& cmd[17] == "yuv420p"@
            &&& cmd[18] == "-preset"@
            &&& cmd[19] == "ultrafast"@
            &&& cmd[20] == "-tune"@
            &&& cmd[21] == "zerolatency"@
            &&& cmd[22] == "-b:v"@
            &&& cmd[23] == bitrate
            &&& cmd[24] == "-maxrate"@
            &&& cmd[25] == bitrate
            &&& cmd[26] == "-bufsize"@
            &&& cmd[27] == bitrate
            &&& cmd[28] == "-g"@
            &&& cmd[29] == "600"@
            &&& cmd[30] == "-bf"@
            &&& cmd[31] == "0"@
            &&& cmd[32] == "-aud"@
            &&& cmd[33] == "1"@
        }),
{
}

/// Commands for two containers differ in the container's name and nowhere else.
pub proof fn law_container_changes_one_word(
    w: u16,
    h: u16,
    fps: u32,
    bitrate: Seq<char>,
    nvenc: bool,
    i: int,
)
    ensures
        ({
            let bare = encoder_command(w, h, fps, bitrate, nvenc, Container::H264);
            let avi = encoder_command(w, h, fps, bitrate, nvenc, Container::Avi);
            &&& bare.len() == avi.len()
            &&& 0 <= i < bare.len() && i != bare.len() - 4 ==> bare[i] == avi[i]
        }),
{
}

/// The decoder reads H.264 from the standard input and writes raw frames to the standard
/// output, without waiting for more than it needs. It uses the given hardware, or one
/// thread.
pub proof fn law_decoder_is_told_where_to_run(hwaccel: Option<Seq<char>>)
    ensures
        ({
            let cmd = decoder_command(hwaccel);
            let n = cmd.len() as int;
            &&& n == 22
            &&& cmd[0] == "-hide_banner"@
            &&& cmd[1] == "-loglevel"@
            &&& cmd[2] == "error"@
            &&& cmd[3] == "-probesize"@
            &&& cmd[4] == "32"@
            &&& cmd[5] == "-analyzeduration"@
            &&& cmd[6] == "0"@
            &&& cmd[7] == "-flags"@
            &&& cmd[8] == "low_delay"@
            &&& hwaccel matches Some(hw) ==> cmd[9] == "-hwaccel"@ && cmd[10] == hw
            &&& hwaccel is None ==> cmd[9] == "-threads"@ && cmd[10] == "1"@
            &&& cmd[11] == "-f"@
            &&& cmd[12] == "h264"@
            &&& cmd[13] == "-i"@
            &&& cmd[14] == "pipe:0"@
            &&& cmd[15] == "-fps_mode"@
            &&& cmd[16] == "passthrough"@
            &&& cmd[17] == "-f"@
            &&& cmd[18] == "rawvideo"@
            &&& cmd[19] == "-pix_fmt"@
            &&& cmd[20] == "bgra"@
            &&& cmd[21] == "pipe:1"@
        }),
{
}

/// The key goes where the key is asked for, and the certificate where that is.
pub proof fn law_certificate_and_key_go_to_their_files(key: Seq<char>, cert: Seq<char>)
    ensures
        ({
            let cmd = cert_command(key, cert);
            &&& cmd.len() == 13
            &&& cmd[0] == "req"@
            &&& cmd[1] == "-x509"@
            &&& cmd[2] == "-newkey"@
            &&& cmd[3] == "rsa:2048"@
            &&& cmd[4] == "-nodes"@
            &&& cmd[5] == "-days"@
            &&& cmd[6] == "3650"@
            &&& cmd[7] == "-subj"@
            &&& cmd[8] == "/CN=rdesk"@
            &&& cmd[9] == "-keyout"@
            &&& cmd[10] == key
            &&& cmd[11] == "-out"@
            &&& cmd[12] == cert
        }),
{
}

/// The probe encodes with NVENC, and keeps nothing.
pub proof fn law_probe_uses_nvenc()
    ensures
        ({
            let cmd = probe_command();
            &&& cmd.len() == 14
            &&& cmd[0] == "-hide_banner"@
            &&& cmd[1] == "-loglevel"@
            &&& cmd[2] == "error"@
            &&& cmd[3] == "-f"@
            &&& cmd[4] == "lavfi"@
            &&& cmd[5] == "-i"@
            &&& cmd[6] == "color=size=256x256:rate=1"@
            &&& cmd[7] == "-frames:v"@
            &&& cmd[8] == "1"@
            &&& cmd[9] == "-c:v"@
            &&& cmd[10] == "h264_nvenc"@
            &&& cmd[11] == "-f"@
            &&& cmd[12] == "null"@
            &&& cmd[13] == "-"@
        }),
{
}

} // verus!
