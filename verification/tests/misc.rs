use richter::capture::{
    encode_step, parse_usize, round_to_nearest, screenshot_request, should_capture,
    startvideo_request, stopvideo, EncodeStep, VideoRequest,
};
use richter::particle::{
    cloud_color, cloud_particles, color_explosion_cloud, explosion_clouds, lava_splash, teleporter_warp, impact_color, spawn_explosion_clouds, trail_particle, CloudSpec,
    ParticleKind, RampId, TrailKind,
};
use richter::sound::{channels_to_stop, sound_path, EntityChannel, PlayingChannel, StopSound};
use richter::startup::{
    autoexposure_change, autoexposure_named, exposure_named, group_startup_commands, str_eq,
    tonemapping_named, AutoExposureChange, ExposurePreset, Tonemapping,
};
use richter::text::{chars_of, decimal_chars};

fn args(list: &[&str]) -> Vec<String> {
    list.iter().map(|s| s.to_string()).collect()
}

#[test]
fn stopping_sounds_on_channels() {
    let chans = vec![
        PlayingChannel { channel: 1, entity: Some(EntityChannel::new(4)) },
        PlayingChannel { channel: 1, entity: None },
        PlayingChannel { channel: 2, entity: Some(EntityChannel::new(4)) },
        PlayingChannel { channel: 1, entity: Some(EntityChannel::new(4)) },
    ];
    assert_eq!(channels_to_stop(&chans, Some(4), 1), vec![0, 3]);
    assert_eq!(channels_to_stop(&chans, None, 1), vec![1]);
    assert!(channels_to_stop(&chans, Some(5), 1).is_empty());
    assert_eq!(EntityChannel::new(9).id(), 9);
    let stop = StopSound::default();
    assert_eq!(stop, StopSound { ent_id: None, ent_channel: 0 });
    assert_eq!(sound_path("misc/talk.wav"), "sound/misc/talk.wav");
}

#[test]
fn particle_colors() {
    assert_eq!(RampId::Fire.colors(), vec![0x6D, 0x6B, 0x06, 0x05, 0x04, 0x03]);
    assert_eq!(RampId::ExplosionSlow.fps(), 5);
    assert_eq!(RampId::ExplosionFast.color(2, 1), Some(0x69));
    assert_eq!(RampId::Fire.color(5, 1), None);
    assert_eq!(cloud_color(66, 71, 0), 66);
    assert_eq!(cloud_color(66, 71, 7), 67);
    assert_eq!(cloud_color(10, 10, 3), 10);
    assert_eq!(impact_color(17, 5), 21);
    assert_eq!(impact_color(255, 7), 255);
    assert_eq!(trail_particle(TrailKind::Rocket, 0, 1, 0, 0), (ParticleKind::Fire { frame_skip: 1 }, 0x6B));
    assert_eq!(trail_particle(TrailKind::Smoke, 0, 3, 0, 0), (ParticleKind::Fire { frame_skip: 5 }, 0x03));
    assert_eq!(trail_particle(TrailKind::TracerGreen, 3, 0, 0, 0), (ParticleKind::Static, 52));
    assert_eq!(trail_particle(TrailKind::TracerGreen, 4, 0, 0, 0), (ParticleKind::Static, 60));
    assert_eq!(trail_particle(TrailKind::TracerRed, 5, 0, 0, 0), (ParticleKind::Static, 238));
    assert_eq!(trail_particle(TrailKind::BloodSlight, 0, 0, 69, 0), (ParticleKind::Grav, 69));
    assert_eq!(trail_particle(TrailKind::Vore, 0, 0, 0, 153), (ParticleKind::Static, 153));
}

#[test]
fn explosion_clouds_use_the_ramps() {
    let clouds = explosion_clouds(0, 3);
    assert_eq!(clouds[0].color_start, 0x6F);
    assert_eq!(clouds[1].color_start, 0x6C);
    assert_eq!(clouds[1].kind, ParticleKind::Explosion { ramp: RampId::ExplosionSlow, frame_skip: 3 });
    assert_eq!(clouds[0].count, 512);
    let spawn = spawn_explosion_clouds();
    assert_eq!(
        spawn,
        vec![
            CloudSpec { count: 256, color_start: 66, color_end: 71, kind: ParticleKind::Blob { has_z_velocity: true }, ttl_ms: 1000 },
            CloudSpec { count: 256, color_start: 150, color_end: 155, kind: ParticleKind::Blob { has_z_velocity: false }, ttl_ms: 1000 },
            CloudSpec { count: 256, color_start: 66, color_end: 71, kind: ParticleKind::Blob { has_z_velocity: true }, ttl_ms: 1400 },
            CloudSpec { count: 256, color_start: 150, color_end: 155, kind: ParticleKind::Blob { has_z_velocity: false }, ttl_ms: 1400 },
        ]
    );
}

#[test]
fn video_requests() {
    assert_eq!(round_to_nearest(800, 10), (800 + 9) & !9);
    assert_eq!(round_to_nearest(601, 8), 608);
    assert_eq!(parse_usize("1024"), Some(1024));
    assert_eq!(parse_usize("+5"), Some(5));
    assert_eq!(parse_usize("x"), None);
    assert_eq!(parse_usize("99999999999999999999999"), None);
    assert!(matches!(startvideo_request(true, &args(&[])), VideoRequest::Refuse(m) if m == "Already recording video"));
    assert!(matches!(startvideo_request(false, &args(&[])), VideoRequest::Start { path: None, longest_side: 800 }));
    assert!(matches!(startvideo_request(false, &args(&["v.mp4", "640"])), VideoRequest::Start { path: Some(p), longest_side: 640 } if p == "v.mp4"));
    assert!(matches!(startvideo_request(false, &args(&["v.mp4", "big"])), VideoRequest::Start { longest_side: 800, .. }));
    assert!(matches!(startvideo_request(false, &args(&["a", "b", "c"])), VideoRequest::Refuse(m) if m == "Usage: startvideo [PATH] [RESOLUTION]"));
    assert_eq!(stopvideo(true), Ok(()));
    assert_eq!(stopvideo(false).unwrap_err(), "Error: no video recording in progress");
    assert_eq!(screenshot_request(&args(&[])), Ok(None));
    assert_eq!(screenshot_request(&args(&["s.png"])), Ok(Some("s.png".to_string())));
    assert_eq!(screenshot_request(&args(&["a", "b"])).unwrap_err(), "Usage: screenshot [PATH]");
}

#[test]
fn frame_capture_and_encoding() {
    assert!(should_capture(None, 0, 10));
    assert!(!should_capture(Some(100), 105, 10));
    assert!(should_capture(Some(100), 110, 10));
    assert_eq!(encode_step(Some(3), 3, true), EncodeStep::EncodeFirst);
    assert_eq!(encode_step(Some(5), 3, true), EncodeStep::Receive);
    assert_eq!(encode_step(Some(5), 3, false), EncodeStep::EncodeFirst);
    assert_eq!(encode_step(None, 3, true), EncodeStep::Receive);
    assert_eq!(encode_step(None, 3, false), EncodeStep::Finish);
}

#[test]
fn startup_commands_from_arguments() {
    let cmds = group_startup_commands(&args(&["stray", "+map", "e1m1", "+skill", "2", "x", "+god"]));
    assert_eq!(cmds, args(&["map e1m1", "skill 2 x", "god"]));
    assert!(group_startup_commands(&args(&["a", "b"])).is_empty());
    assert_eq!(group_startup_commands(&args(&["+", "x"])), args(&[" x"]));
}

#[test]
fn render_settings_by_name() {
    assert_eq!(tonemapping_named("aces"), Some(Tonemapping::AcesFitted));
    assert_eq!(tonemapping_named("none"), Some(Tonemapping::Disabled));
    assert_eq!(tonemapping_named("other"), None);
    assert_eq!(exposure_named("sunlight"), Some(ExposurePreset::Sunlight));
    assert_eq!(exposure_named("12"), None);
    assert_eq!(autoexposure_named("on"), Some(true));
    assert_eq!(autoexposure_named("off"), Some(false));
    assert_eq!(autoexposure_named("1"), None);
    assert_eq!(autoexposure_change(true, false), AutoExposureChange::Remove);
    assert_eq!(autoexposure_change(false, true), AutoExposureChange::Insert);
    assert_eq!(autoexposure_change(true, true), AutoExposureChange::Keep);
    assert!(str_eq("abc", "abc"));
    assert!(!str_eq("abc", "abd"));
}

#[test]
fn text_helpers() {
    assert_eq!(chars_of("héllo"), vec!['h', 'é', 'l', 'l', 'o']);
    assert_eq!(decimal_chars(0), vec!['0']);
    assert_eq!(decimal_chars(1203), vec!['1', '2', '0', '3']);
}

#[test]
fn color_explosion_particles() {
    let cloud = color_explosion_cloud(10, 12);
    assert_eq!(cloud.count, 512);
    assert_eq!(cloud.ttl_ms, 5000);
    assert_eq!(cloud.kind, ParticleKind::Blob { has_z_velocity: true });
    let ps = cloud_particles(&cloud, 700);
    assert_eq!(ps.len(), 512);
    let colors: Vec<u8> = ps.iter().take(5).map(|p| p.color).collect();
    assert_eq!(colors, vec![10, 11, 12, 10, 11]);
    assert!(ps.iter().all(|p| p.spawned_ms == 700 && p.expire_ms == 5700));
    assert_eq!(lava_splash().count, 1024);
    assert_eq!(teleporter_warp().count, 896);
    assert_eq!(teleporter_warp().color_min, 7);
}
