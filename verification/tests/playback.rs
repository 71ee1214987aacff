use mpvipc::decode::encode_double;
use mpvipc::playback::{loop_target, position_after, switch_target};
use mpvipc::{
    Error, ErrorCode, Json, Mpv, MpvCommand, PendingRequest, PlaylistAddOptions,
    PlaylistAddTypeOptions, SeekOptions, Switch,
};

fn text(s: &str) -> String {
    s.to_string()
}

fn record(sent: Result<PendingRequest, Error>) -> String {
    sent.unwrap().record
}

fn line(command: &str) -> String {
    format!("{{\"command\":{},\"request_id\":1}}\n", command)
}

fn mpv() -> Mpv {
    Mpv::new("/tmp/mpvsocket")
}

#[test]
fn property_reads() {
    assert_eq!(record(mpv().get_property("pause")), line("[\"get_property\",\"pause\"]"));
    assert_eq!(
        record(mpv().get_property_string("media-title")),
        line("[\"get_property\",\"media-title\"]")
    );
    assert_eq!(record(mpv().get_metadata()), line("[\"get_property\",\"metadata\"]"));
    assert_eq!(record(mpv().get_playlist()), line("[\"get_property\",\"playlist\"]"));
}

#[test]
fn property_writes() {
    assert_eq!(
        record(mpv().set_property("pause", Json::Bool(true))),
        line("[\"set_property\",\"pause\",true]")
    );
    assert_eq!(
        record(mpv().set_property("volume", Json::Real(text("55.5")))),
        line("[\"set_property\",\"volume\",55.5]")
    );
    assert_eq!(
        record(mpv().set_property("title", Json::String(text("x")))),
        line("[\"set_property\",\"title\",\"x\"]")
    );
    assert_eq!(
        record(mpv().set_property("playlist-pos", Json::Integer(2))),
        line("[\"set_property\",\"playlist-pos\",2]")
    );
    assert_eq!(
        mpv().set_property("volume", Json::Real(text("loud"))),
        Err(Error(ErrorCode::UnsupportedType))
    );
}

#[test]
fn writes_of_numbers_that_arithmetic_gives() {
    assert_eq!(
        record(mpv().set_property("speed", encode_double("1.3000000000000003"))),
        line("[\"set_property\",\"speed\",1.3000000000000003]")
    );
    let mut state = mpv();
    let mut speed = 1.0;
    for id in 1..=50u64 {
        speed += 0.1;
        let printed = serde_json::Number::from_f64(speed).unwrap().to_string();
        let sent = state.set_property("speed", encode_double(&printed)).unwrap();
        assert_eq!(sent.request_id, id);
        assert_eq!(
            sent.record,
            format!("{{\"command\":[\"set_property\",\"speed\",{}],\"request_id\":{}}}\n", printed, id)
        );
    }
}

#[test]
fn commands() {
    assert_eq!(record(mpv().run_command(MpvCommand::PlaylistShuffle)), line("[\"playlist-shuffle\"]"));
    assert_eq!(
        record(mpv().run_command(MpvCommand::Seek {
            seconds: text("0"),
            option: SeekOptions::Absolute
        })),
        line("[\"seek\",\"0\",\"absolute\"]")
    );
    assert_eq!(
        record(mpv().run_command_raw("cycle", &vec![text("pause")])),
        line("[\"cycle\",\"pause\"]")
    );
    assert_eq!(record(mpv().run_command_raw("stop", &vec![])), line("[\"stop\"]"));
    assert_eq!(
        record(mpv().run_command_raw2(
            &vec![text("no-osd"), text("seek")],
            &vec![text("5"), text("relative")]
        )),
        line("[\"no-osd\",\"seek\",\"5\",\"relative\"]")
    );
}

#[test]
fn plain_operations() {
    assert_eq!(record(mpv().kill()), line("[\"quit\"]"));
    assert_eq!(record(mpv().next()), line("[\"playlist-next\"]"));
    assert_eq!(record(mpv().prev()), line("[\"playlist-prev\"]"));
    assert_eq!(record(mpv().stop()), line("[\"stop\"]"));
    assert_eq!(record(mpv().pause()), line("[\"set_property\",\"pause\",true]"));
    assert_eq!(record(mpv().toggle()), line("[\"cycle\",\"pause\"]"));
    assert_eq!(record(mpv().restart()), line("[\"seek\",\"0\",\"absolute\"]"));
    assert_eq!(
        record(mpv().seek("12.5", SeekOptions::Relative)),
        line("[\"seek\",\"12.5\",\"relative\"]")
    );
    assert_eq!(
        record(mpv().seek("50", SeekOptions::AbsolutePercent)),
        line("[\"seek\",\"50\",\"absolute-percent\"]")
    );
}

#[test]
fn observation() {
    assert_eq!(
        record(mpv().observe_property(3, "pause")),
        line("[\"observe_property\",3,\"pause\"]")
    );
    assert_eq!(
        record(mpv().observe_property(-1, "volume")),
        line("[\"observe_property\",-1,\"volume\"]")
    );
    assert_eq!(record(mpv().unobserve_property(3)), line("[\"unobserve_property\",3]"));
}

#[test]
fn playlist_operations() {
    assert_eq!(
        record(mpv().playlist_add(
            "a.mkv",
            PlaylistAddTypeOptions::File,
            PlaylistAddOptions::Append
        )),
        line("[\"loadfile\",\"a.mkv\",\"append\"]")
    );
    assert_eq!(
        record(mpv().playlist_add(
            "l.m3u",
            PlaylistAddTypeOptions::Playlist,
            PlaylistAddOptions::Replace
        )),
        line("[\"loadlist\",\"l.m3u\",\"replace\"]")
    );
    assert_eq!(record(mpv().playlist_clear()), line("[\"playlist-clear\"]"));
    assert_eq!(record(mpv().playlist_shuffle()), line("[\"playlist-shuffle\"]"));
    assert_eq!(record(mpv().playlist_move_id(4, 1)), line("[\"playlist-move\",\"4\",\"1\"]"));
    assert_eq!(record(mpv().playlist_remove_id(2)), line("[\"playlist-remove\",\"2\"]"));
    assert_eq!(
        record(mpv().playlist_play_id(6)),
        line("[\"set_property\",\"playlist-pos\",6]")
    );
}

#[test]
fn play_next_moves_behind_the_current_entry() {
    assert_eq!(
        record(mpv().playlist_play_next(5, 2)),
        line("[\"playlist-move\",\"5\",\"3\"]")
    );
    let mut state = mpv();
    assert_eq!(
        state.playlist_play_next(5, usize::MAX),
        Err(Error(ErrorCode::ValueDoesNotContainUsize))
    );
    assert_eq!(state.stop().unwrap().request_id, 1);
    assert_eq!(position_after(0), Some(1));
    assert_eq!(position_after(usize::MAX - 1), Some(usize::MAX));
    assert_eq!(position_after(usize::MAX), None);
}

#[test]
fn switches() {
    assert!(switch_target(Switch::On, false));
    assert!(switch_target(Switch::On, true));
    assert!(!switch_target(Switch::Off, false));
    assert!(!switch_target(Switch::Off, true));
    assert!(switch_target(Switch::Toggle, false));
    assert!(!switch_target(Switch::Toggle, true));
    assert!(loop_target(Switch::On, "inf"));
    assert!(!loop_target(Switch::Off, "false"));
    assert!(loop_target(Switch::Toggle, "false"));
    assert!(!loop_target(Switch::Toggle, "inf"));
    assert!(!loop_target(Switch::Toggle, "true"));
    assert!(!loop_target(Switch::Toggle, "no"));
}

#[test]
fn switch_operations() {
    assert_eq!(
        record(mpv().set_mute(Switch::Toggle, false)),
        line("[\"set_property\",\"mute\",true]")
    );
    assert_eq!(
        record(mpv().set_mute(Switch::Toggle, true)),
        line("[\"set_property\",\"mute\",false]")
    );
    assert_eq!(
        record(mpv().set_mute(Switch::On, true)),
        line("[\"set_property\",\"mute\",true]")
    );
    assert_eq!(
        record(mpv().set_mute(Switch::Off, true)),
        line("[\"set_property\",\"mute\",false]")
    );
    assert_eq!(
        record(mpv().set_loop_file(Switch::Toggle, "false")),
        line("[\"set_property\",\"loop-file\",true]")
    );
    assert_eq!(
        record(mpv().set_loop_file(Switch::Toggle, "inf")),
        line("[\"set_property\",\"loop-file\",false]")
    );
    assert_eq!(
        record(mpv().set_loop_playlist(Switch::On, "")),
        line("[\"set_property\",\"loop-playlist\",true]")
    );
    assert_eq!(
        record(mpv().set_loop_playlist(Switch::Toggle, "false")),
        line("[\"set_property\",\"loop-playlist\",true]")
    );
}
