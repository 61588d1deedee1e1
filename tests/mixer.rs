use groover::mixer::{gain_for, SoftMixer, MAX_VOLUME};

#[test]
fn full_volume_is_identity() {
    assert_eq!(gain_for(MAX_VOLUME), None);
    assert_eq!(MAX_VOLUME, 0xFFFF);
}

#[test]
fn zero_volume_scales_by_zero() {
    assert_eq!(gain_for(0), Some(0));
    assert_eq!(gain_for(0x7FFF), Some(0x7FFF));
}

#[test]
fn mixer_opens_at_full_volume() {
    let m = SoftMixer::open();
    assert_eq!(m.volume(), 0xFFFF);
    assert_eq!(m.get_audio_filter().gain(), None);
}

#[test]
fn filter_follows_volume_changes() {
    let m = SoftMixer::open();
    let f = m.get_audio_filter();
    m.set_volume(100);
    assert_eq!(m.volume(), 100);
    assert_eq!(f.gain(), Some(100));
    m.set_volume(0);
    assert_eq!(f.gain(), Some(0));
    m.set_volume(MAX_VOLUME);
    assert_eq!(f.gain(), None);
}
