use rtp_media::codec;
use rtp_media::{aac, g723, h264, onvif, rtp, simple_audio};

// See with: cargo test -- --nocapture print_sizes
#[test]
fn print_sizes() {
    for (name, size) in &[
        ("Depacketizer", std::mem::size_of::<codec::Depacketizer>()),
        ("aac::Depacketizer", std::mem::size_of::<aac::Depacketizer>()),
        ("g723::Depacketizer", std::mem::size_of::<g723::Depacketizer>()),
        ("h264::Depacketizer", std::mem::size_of::<h264::Depacketizer>()),
        ("onvif::Depacketizer", std::mem::size_of::<onvif::Depacketizer>()),
        (
            "simple_audio::Depacketizer",
            std::mem::size_of::<simple_audio::Depacketizer>(),
        ),
        ("CodecItem", std::mem::size_of::<codec::CodecItem>()),
        ("VideoFrame", std::mem::size_of::<codec::VideoFrame>()),
        ("AudioFrame", std::mem::size_of::<codec::AudioFrame>()),
        ("MessageFrame", std::mem::size_of::<codec::MessageFrame>()),
        ("SenderReport", std::mem::size_of::<rtp::SenderReport>()),
        ("Parameters", std::mem::size_of::<codec::Parameters>()),
        ("VideoParameters", std::mem::size_of::<codec::VideoParameters>()),
        ("AudioParameters", std::mem::size_of::<codec::AudioParameters>()),
        (
            "MessageParameters",
            std::mem::size_of::<codec::MessageParameters>(),
        ),
    ] {
        println!("{:-40} {:4}", name, size);
    }
}
