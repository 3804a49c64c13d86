use rdesk::command::{cert_args, decoder_args, encoder_args, probe_args, Container};

#[test]
fn probe_encodes_one_frame() {
    assert_eq!(
        probe_args().join(" "),
        "-hide_banner -loglevel error -f lavfi -i color=size=256x256:rate=1 -frames:v 1 \
         -c:v h264_nvenc -f null -"
    );
}

#[test]
fn encoder_on_the_gpu() {
    assert_eq!(
        encoder_args(1920, 1072, 30, "12M", true, Container::Avi).join(" "),
        "-hide_banner -loglevel error -f rawvideo -pix_fmt bgra -video_size 1920x1072 \
         -framerate 30 -i pipe:0 -an -c:v h264_nvenc -pix_fmt bgra -profile:v baseline \
         -preset p1 -tune ll -rc vbr -b:v 12M -maxrate 12M -bufsize 12M -g 600 -bf 0 \
         -zerolatency 1 -delay 0 -aud 1 -f avi -flush_packets 1 pipe:1"
    );
}

#[test]
fn encoder_on_the_cpu() {
    assert_eq!(
        encoder_args(640, 480, 15, "3M", false, Container::H264).join(" "),
        "-hide_banner -loglevel error -f rawvideo -pix_fmt bgra -video_size 640x480 \
         -framerate 15 -i pipe:0 -an -c:v libx264 -pix_fmt yuv420p -preset ultrafast \
         -tune zerolatency -b:v 3M -maxrate 3M -bufsize 3M -g 600 -bf 0 -aud 1 \
         -f h264 -flush_packets 1 pipe:1"
    );
}

#[test]
fn decoder_runs_one_thread_or_the_gpu() {
    assert_eq!(
        decoder_args(None).join(" "),
        "-hide_banner -loglevel error -probesize 32 -analyzeduration 0 -flags low_delay \
         -threads 1 -f h264 -i pipe:0 -fps_mode passthrough -f rawvideo -pix_fmt bgra pipe:1"
    );
    assert_eq!(
        decoder_args(Some("vaapi".to_string())).join(" "),
        "-hide_banner -loglevel error -probesize 32 -analyzeduration 0 -flags low_delay \
         -hwaccel vaapi -f h264 -i pipe:0 -fps_mode passthrough -f rawvideo -pix_fmt bgra pipe:1"
    );
}

#[test]
fn certificate_is_made_unless_it_is_there() {
    let want = "req -x509 -newkey rsa:2048 -nodes -days 3650 -subj /CN=rdesk -keyout k -out c";
    for (cert, key) in [(false, false), (true, false), (false, true)] {
        assert_eq!(cert_args(cert, key, "k", "c").map(|v| v.join(" ")), Some(want.to_string()));
    }
    assert_eq!(cert_args(true, true, "k", "c"), None);
}
