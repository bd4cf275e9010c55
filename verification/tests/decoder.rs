use media_player::audio::SampleFormat;
use media_player::decode::PacketRoute;
use media_player::decoder::{
    after_receive, formatter_accepts, formatter_layout, pull_route, AfterReceive, ChannelLayout,
    IdleAction, PullState, Received,
};

#[test]
fn receive_answers() {
    assert_eq!(after_receive(Received::Frame), AfterReceive::Yield);
    assert_eq!(after_receive(Received::Again), AfterReceive::Continue);
    assert_eq!(after_receive(Received::Eof), AfterReceive::Continue);
    assert_eq!(after_receive(Received::Failed), AfterReceive::Fail);
}

#[test]
fn pull_routes_prefer_video() {
    assert_eq!(pull_route(0, 0, 1), PacketRoute::Video);
    assert_eq!(pull_route(1, 0, 1), PacketRoute::Audio);
    assert_eq!(pull_route(2, 0, 1), PacketRoute::Skip);
    assert_eq!(pull_route(3, 3, 3), PacketRoute::Video);
}

#[test]
fn formatter_choices() {
    assert_eq!(formatter_layout(1), ChannelLayout::Mono);
    assert_eq!(formatter_layout(2), ChannelLayout::Stereo);
    assert_eq!(formatter_layout(6), ChannelLayout::Stereo);
    assert!(formatter_accepts(SampleFormat::F32));
    assert!(!formatter_accepts(SampleFormat::I16));
}

#[test]
fn the_pull_decoder_reads_until_the_input_ends() {
    let mut s = PullState::new();
    assert_eq!(s.when_idle(), IdleAction::ReadPackets);
    assert_eq!(s.when_idle(), IdleAction::ReadPackets);
    s.input_ended();
    assert_eq!(s.when_idle(), IdleAction::Done);
    s.input_ended();
    assert_eq!(s.when_idle(), IdleAction::Done);
}
