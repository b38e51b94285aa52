use hexapod::gait::{tetrapod_slots, GaitConfig, GaitType, LegSet};
use hexapod::imu::{decode_calibration, decode_euler, decode_quaternion, read_i16_le, Bno055Dummy, FULL_CALIBRATION};
use hexapod::legs::{Leg, LegId, LegPart};
use hexapod::sim::xorshift_step;
use hexapod::servo::{PwmCache, PwmCommand, ServoPins, SERVO_CENTER, SERVO_MAX, SERVO_MIN};
use hexapod::tts::{
    generate_cache_key, hex_lower, say, say_blocking, say_impl, sayen, sayen_blocking, saysk,
    saysk_blocking, CacheData, CachePlan,
};
use hexapod::web::{find_template, get_gait, health_check, set_gait, stop_hexapod, SetGaitRequest, StopRequest};

fn pins() -> ServoPins {
    ServoPins {
        left_front: (0, 1, 2),
        left_middle: (4, 5, 6),
        left_back: (8, 9, 10),
        right_front: (0, 1, 2),
        right_middle: (4, 5, 6),
        right_back: (8, 9, 10),
    }
}

#[test]
fn leg_sides() {
    assert!(Leg::LeftFront.is_left());
    assert!(Leg::LeftBack.is_left());
    assert!(!Leg::RightMiddle.is_left());
    assert!(Leg::RightMiddle.is_right());
    assert!(!Leg::LeftMiddle.is_right());
}

#[test]
fn leg_id_index_round_trip() {
    for i in 0..6usize {
        assert_eq!(LegId::from_index(i).index(), i);
    }
    assert_eq!(LegId::LeftFront.index(), 0);
    assert_eq!(LegId::RightBack.index(), 5);
    assert_eq!(LegId::from_index(3), LegId::RightFront);
}

#[test]
fn servo_pin_lookup() {
    let p = pins();
    assert_eq!(p.get_pin(Leg::LeftFront, LegPart::Coxa), 0);
    assert_eq!(p.get_pin(Leg::LeftMiddle, LegPart::Femur), 5);
    assert_eq!(p.get_pin(Leg::RightBack, LegPart::Tibia), 10);
}

#[test]
fn servo_right_side_is_mirrored() {
    let mut cache = PwmCache::new();
    let left = cache.plan_pwm(Leg::LeftFront, 0, 250);
    assert_eq!(left, Some(PwmCommand { left: true, channel: 0, width: 250 }));
    let right = cache.plan_pwm(Leg::RightFront, 0, 250);
    assert_eq!(right, Some(PwmCommand { left: false, channel: 0, width: SERVO_MIN + SERVO_MAX - 250 }));
    let centre = cache.plan_pwm(Leg::RightBack, 8, SERVO_CENTER);
    assert_eq!(centre, Some(PwmCommand { left: false, channel: 8, width: 307 }));
}

#[test]
fn servo_repeated_width_is_skipped() {
    let mut cache = PwmCache::new();
    assert!(cache.plan_pwm(Leg::LeftBack, 9, 300).is_some());
    assert!(cache.plan_pwm(Leg::LeftBack, 9, 300).is_none());
    assert!(cache.plan_pwm(Leg::LeftBack, 9, 301).is_some());
    assert!(cache.plan_pwm(Leg::LeftBack, 9, 300).is_some());
    // The other controller keeps its own record.
    assert!(cache.plan_pwm(Leg::RightBack, 9, 314).is_some());
    assert!(cache.plan_pwm(Leg::RightBack, 9, 314).is_none());
}

#[test]
fn servo_should_skip_records_target() {
    let mut cache = PwmCache::new();
    assert!(!cache.should_skip_pwm(true, 3, 200));
    assert!(cache.should_skip_pwm(true, 3, 200));
    assert!(!cache.should_skip_pwm(false, 3, 200));
    assert!(!cache.should_skip_pwm(true, 4, 200));
}

#[test]
fn gait_names_and_phases() {
    assert_eq!(GaitType::Tripod.name(), "Tripod");
    assert_eq!(GaitType::Tetrapod.name(), "Tetrapod");
    assert_eq!(GaitType::Wave.name(), "Wave");
    assert_eq!(GaitType::Ripple.name(), "Ripple");
    assert_eq!(GaitType::Tripod.phase_count(), 2);
    assert_eq!(GaitType::Tetrapod.phase_count(), 3);
    assert_eq!(GaitType::Wave.phase_count(), 6);
    assert_eq!(GaitType::Ripple.phase_count(), 6);
    assert_eq!(GaitType::default(), GaitType::Tripod);
}

#[test]
fn gait_next_cycles_through_four() {
    let g = GaitType::Tripod;
    assert_eq!(g.next(), GaitType::Tetrapod);
    assert_eq!(g.next().next(), GaitType::Wave);
    assert_eq!(g.next().next().next(), GaitType::Ripple);
    assert_eq!(g.next().next().next().next(), GaitType::Tripod);
}

#[test]
fn leg_set_operations() {
    let mut s = LegSet::new();
    assert!(s.is_empty());
    assert_eq!(s.len(), 0);
    s.insert(LegId::LeftMiddle);
    s.insert(LegId::RightBack);
    s.insert(LegId::RightBack);
    assert!(s.contains(LegId::LeftMiddle));
    assert!(!s.contains(LegId::LeftFront));
    assert_eq!(s.len(), 2);
    assert_eq!(
        s.absent_in_order(),
        vec![LegId::LeftFront, LegId::LeftBack, LegId::RightFront, LegId::RightMiddle]
    );
    let copy = s.clone();
    assert_eq!(copy, s);
    s.remove(LegId::LeftMiddle);
    assert_eq!(s.len(), 1);
    assert!(!s.is_empty());
    assert_eq!(copy.len(), 2);
}

#[test]
fn gait_config_toggle_switches_to_tetrapod() {
    let mut c = GaitConfig::default();
    assert_eq!(c.gait_type, GaitType::Tripod);
    assert_eq!(c.enabled_leg_count(), 6);
    c.toggle_leg(LegId::LeftBack);
    assert!(!c.is_leg_enabled(LegId::LeftBack));
    assert_eq!(c.gait_type, GaitType::Tetrapod);
    assert_eq!(c.enabled_leg_count(), 5);
    c.toggle_leg(LegId::LeftBack);
    assert!(c.is_leg_enabled(LegId::LeftBack));
    assert_eq!(c.enabled_leg_count(), 6);
    assert_eq!(c.gait_type, GaitType::Tetrapod);
}

#[test]
fn gait_config_disable_and_enable() {
    let mut c = GaitConfig::default();
    c.gait_type = GaitType::Wave;
    c.disable_leg(LegId::RightFront);
    assert_eq!(c.gait_type, GaitType::Wave);
    assert!(!c.is_leg_enabled(LegId::RightFront));
    c.enable_leg(LegId::RightFront);
    assert!(c.is_leg_enabled(LegId::RightFront));
    let mut t = GaitConfig::default();
    t.disable_leg(LegId::LeftFront);
    assert_eq!(t.gait_type, GaitType::Tetrapod);
    t.enable_leg(LegId::LeftFront);
    assert_eq!(t.gait_type, GaitType::Tetrapod);
    assert_eq!(t.disabled_legs.len(), 0);
}

#[test]
fn tetrapod_slot_counts() {
    assert_eq!(tetrapod_slots(0), 1);
    assert_eq!(tetrapod_slots(1), 1);
    assert_eq!(tetrapod_slots(4), 2);
    assert_eq!(tetrapod_slots(5), 3);
    assert_eq!(tetrapod_slots(6), 3);
}

#[test]
fn web_responses() {
    let r = stop_hexapod(&StopRequest {});
    assert!(r.success);
    assert_eq!(r.message, "Hexapod stopped");
    let h = health_check("0.1.0");
    assert_eq!(h.status, "healthy");
    assert_eq!(h.version, "0.1.0");
    let g = get_gait("tri");
    assert!(g.success);
    assert_eq!(g.message, "Current gait");
    assert_eq!(g.current_gait, "tri");
    let s = set_gait("wave");
    assert!(s.success);
    assert_eq!(s.message, "Gait changed to wave");
    assert_eq!(s.current_gait, "wave");
}

#[test]
fn web_find_template() {
    let names: Vec<String> = ["tri", "wave", "ripple", "bi", "quad", "hop"].iter().map(|s| s.to_string()).collect();
    let req = |n: &str| SetGaitRequest { gait_name: n.to_string() };
    assert_eq!(find_template(&names, &req("tri")), Some(0));
    assert_eq!(find_template(&names, &req("hop")), Some(5));
    assert_eq!(find_template(&names, &req("gallop")), None);
    let dup: Vec<String> = ["a", "b", "a"].iter().map(|s| s.to_string()).collect();
    assert_eq!(find_template(&dup, &req("a")), Some(0));
}

#[test]
fn imu_dummy_is_calibrated() {
    let mut d = Bno055Dummy::new(1, 0x28);
    assert_eq!(d.get_calibration_status(), (FULL_CALIBRATION, 3, 3, 3));
}

#[test]
fn speech_jobs_pick_voice_and_blocking() {
    let j = say("hello", None);
    assert_eq!(j.text, "hello");
    assert_eq!(j.voice, "en_US-ryan-medium");
    assert!(!j.blocking);
    let j = say_blocking("hi", Some("custom"));
    assert_eq!(j.voice, "custom");
    assert!(j.blocking);
    assert_eq!(sayen("a").voice, "en_US-ryan-medium");
    assert_eq!(saysk("a").voice, "sk_SK-lili-medium");
    assert!(!saysk("a").blocking);
    assert!(sayen_blocking("a").blocking);
    let j = say_impl("x", None, true);
    assert_eq!(j.voice, "en_US-ryan-medium");
    assert!(j.blocking);
    let j = saysk_blocking("Ahoj");
    assert_eq!(j.voice, "sk_SK-lili-medium");
    assert_eq!(j.text, "Ahoj");
    assert!(j.blocking);
}

#[test]
fn hex_lower_digits() {
    assert_eq!(hex_lower(&[0x00, 0x0f, 0xa0, 0xff]), "000fa0ff");
    assert_eq!(hex_lower(&[]), "");
}

#[test]
fn cache_key_is_sha256_of_text_and_voice() {
    assert_eq!(
        generate_cache_key("hello", "en_US-ryan-medium"),
        "37d0fd697bda9a60384ab4e45b1f0aca45647c0e63505fa2b6015414908e301e"
    );
    assert_eq!(
        generate_cache_key("Ahoj", "sk_SK-lili-medium"),
        "743e81e11a6c297f35e0ff2394ac74f965b73d5eec3d20f5d7acc9139f0f8341"
    );
    assert_ne!(generate_cache_key("a", "b"), generate_cache_key("b", "a"));
}

#[test]
fn cache_data_bookkeeping() {
    let mut c = CacheData::new();
    let key = "k1".to_string();
    assert_eq!(c.find(&key), None);
    assert!(!c.record_use(&key, 100));
    c.record_generated(&key, &"hello".to_string(), &"v".to_string(), &"/tmp/k1.wav".to_string(), 100);
    let i = c.find(&key).expect("present");
    assert_eq!(c.entries[i].1.use_count, 1);
    assert_eq!(c.entries[i].1.last_used, 100);
    assert!(c.record_use(&key, 250));
    let i = c.find(&key).expect("present");
    assert_eq!(c.entries[i].1.use_count, 2);
    assert_eq!(c.entries[i].1.last_used, 250);
    c.record_generated(&key, &"x".to_string(), &"y".to_string(), &"/tmp/new.wav".to_string(), 300);
    let e = &c.entries[c.find(&key).unwrap()].1;
    assert_eq!(e.use_count, 3);
    assert_eq!(e.text, "hello");
    assert_eq!(e.file_path, "/tmp/new.wav");
    c.remove(&key);
    assert_eq!(c.find(&key), None);
    assert!(c.entries.is_empty());
}

#[test]
fn cache_stale_keys() {
    let mut c = CacheData::new();
    let day = 86_400u64;
    c.record_generated(&"old".to_string(), &"t".to_string(), &"v".to_string(), &"p".to_string(), 0);
    c.record_generated(&"used".to_string(), &"t".to_string(), &"v".to_string(), &"p".to_string(), 0);
    c.record_use(&"used".to_string(), 0);
    c.record_generated(&"fresh".to_string(), &"t".to_string(), &"v".to_string(), &"p".to_string(), 29 * day);
    let now = 31 * day;
    assert_eq!(c.stale_keys(now, 30), vec!["old".to_string()]);
    assert_eq!(c.stale_keys(30 * day, 30), Vec::<String>::new());
}

#[test]
fn imu_calibration_register_fields() {
    assert_eq!(decode_calibration(0b1110_0100), (3, 2, 1, 0));
    assert_eq!(decode_calibration(0xFF), (3, 3, 3, 3));
    assert_eq!(decode_calibration(0), (0, 0, 0, 0));
}

#[test]
fn imu_register_values_are_signed_little_endian() {
    assert_eq!(read_i16_le(0x10, 0x00), 16);
    assert_eq!(read_i16_le(0xFF, 0xFF), -1);
    assert_eq!(read_i16_le(0x00, 0x80), i16::MIN);
    assert_eq!(read_i16_le(0xFF, 0x7F), i16::MAX);
    assert_eq!(decode_euler(&[0x40, 0x01, 0xF0, 0xFF, 0x00, 0x00]), (320, -16, 0));
    assert_eq!(decode_quaternion(&[0x00, 0x40, 0x00, 0x00, 0x00, 0xC0, 0x01, 0x00]), (16384, 0, -16384, 1));
}

#[test]
fn xorshift_steps() {
    assert_eq!(xorshift_step(0), 0);
    let mut s: u64 = 1;
    let mut x = s;
    x ^= x << 13;
    x ^= x >> 7;
    x ^= x << 17;
    assert_eq!(xorshift_step(s), x);
    for _ in 0..1000 {
        s = xorshift_step(s);
        assert_ne!(s, 0);
    }
    assert_eq!(xorshift_step(1), 1082269761);
}

#[test]
fn cache_plan_replays_only_existing_files() {
    let mut c = CacheData::new();
    let key = "k".to_string();
    assert_eq!(c.plan_job(&key, true), CachePlan::Generate);
    c.record_generated(&key, &"t".to_string(), &"v".to_string(), &"p".to_string(), 1);
    assert_eq!(c.plan_job(&key, true), CachePlan::Replay);
    assert_eq!(c.plan_job(&key, false), CachePlan::Generate);
}
