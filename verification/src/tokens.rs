//! The keys of the entries of the robot's store.

use vstd::prelude::*;

verus! {

/// Statistics of the robot's computer.
pub const SYSTEM_INFO: &'static str = "robot.system_info";
/// The robot's status.
pub const STATUS: &'static str = "robot.status";
/// Whether a leak was detected.
pub const LEAK: &'static str = "robot.status.leak";
/// The cameras being streamed.
pub const CAMERAS: &'static str = "robot.cameras";
/// Whether the motors may run.
pub const ARMED: &'static str = "robot.motors.armed";
/// The speed of each motor.
pub const MOTOR_SPEED: &'static str = "robot.motors.speed";
/// The leveling mode.
pub const LEVELING_MODE: &'static str = "robot.leveling.mode";
/// The gains of the leveling controllers.
pub const LEVELING_PID: &'static str = "robot.leveling.pid";
/// The last output of the pitch controller.
pub const LEVELING_PITCH_RESULT: &'static str = "robot.leveling.pitch";
/// The last output of the roll controller.
pub const LEVELING_ROLL_RESULT: &'static str = "robot.leveling.roll";
/// The last leveling correction.
pub const LEVELING_CORRECTION: &'static str = "robot.leveling.correction";
/// The movement requested by the pilot's joystick.
pub const MOVEMENT_JOYSTICK: &'static str = "robot.movement.joystick";
/// The movement requested by the vision code.
pub const MOVEMENT_OPENCV: &'static str = "robot.movement.opencv";
/// The movement requested by the leveling controllers.
pub const MOVEMENT_LEVELING: &'static str = "robot.movement.leveling";
/// The movement requested by the depth controller.
pub const MOVEMENT_DEPTH: &'static str = "robot.movement.depth";
/// The depth to hold.
pub const DEPTH_TARGET: &'static str = "robot.movement.ai.depth.target";
/// The sum of the movement requests.
pub const MOVEMENT_CALCULATED: &'static str = "robot.movement.calculated";
/// The last frame of the depth sensor.
pub const RAW_DEPTH: &'static str = "robot.sensors.depth";
/// The last frame of the inertial sensor.
pub const RAW_INERTIAL: &'static str = "robot.sensors.inertial";
/// The last frame of the magnetometer.
pub const RAW_MAGNETIC: &'static str = "robot.sensors.mag";
/// The fused orientation.
pub const ORIENTATION: &'static str = "robot.sensors.fusion";

/// The keys whose values travel between the robot and the surface, each with
/// its own serialization adapter.
pub open spec fn adapted_keys_spec() -> Seq<Seq<char>> {
    seq![
        SYSTEM_INFO@, STATUS@, LEAK@, CAMERAS@, ARMED@, MOTOR_SPEED@, LEVELING_MODE@,
        LEVELING_PID@, LEVELING_PITCH_RESULT@, LEVELING_ROLL_RESULT@, LEVELING_CORRECTION@,
        MOVEMENT_JOYSTICK@, MOVEMENT_OPENCV@, MOVEMENT_LEVELING@, MOVEMENT_DEPTH@, DEPTH_TARGET@,
        MOVEMENT_CALCULATED@, RAW_DEPTH@, RAW_INERTIAL@, RAW_MAGNETIC@, ORIENTATION@
    ]
}

/// Every key of the robot's store, in the order the module declares them.
pub open spec fn store_keys() -> Set<Seq<char>> {
    set![
        SYSTEM_INFO@, STATUS@, LEAK@, CAMERAS@, ARMED@, MOTOR_SPEED@, LEVELING_MODE@,
        LEVELING_PID@, LEVELING_PITCH_RESULT@, LEVELING_ROLL_RESULT@, LEVELING_CORRECTION@,
        MOVEMENT_JOYSTICK@, MOVEMENT_OPENCV@, MOVEMENT_LEVELING@, MOVEMENT_DEPTH@, DEPTH_TARGET@,
        MOVEMENT_CALCULATED@, RAW_DEPTH@, RAW_INERTIAL@, RAW_MAGNETIC@, ORIENTATION@
    ]
}

/// The position in the adapter list of a key, told apart by its length and
/// two of its characters; 21 for any other key.
spec fn adapter_position(k: Seq<char>) -> int {
    if k.len() == 17 && k[6] == 's' && k[13] == 'i' {
        0

    } else if k.len() == 12 && k[6] == 's' && k[8] == 'a' {
        1

    } else if k.len() == 17 && k[6] == 's' && k[13] == 'l' {
        2

    } else if k.len() == 13 && k[6] == 'c' && k[9] == 'e' {
        3

    } else if k.len() == 18 && k[6] == 'm' && k[14] == 'r' {
        4

    } else if k.len() == 18 && k[6] == 'm' && k[14] == 'p' {
        5

    } else if k.len() == 19 && k[6] == 'l' && k[15] == 'm' {
        6

    } else if k.len() == 18 && k[6] == 'l' && k[14] == '.' {
        7

    } else if k.len() == 20 && k[6] == 'l' && k[16] == 'i' {
        8

    } else if k.len() == 19 && k[6] == 'l' && k[15] == 'r' {
        9

    } else if k.len() == 25 && k[6] == 'l' && k[21] == 't' {
        10

    } else if k.len() == 23 && k[6] == 'm' && k[19] == 't' {
        11

    } else if k.len() == 21 && k[6] == 'm' && k[17] == 'e' {
        12

    } else if k.len() == 23 && k[6] == 'm' && k[19] == 'l' {
        13

    } else if k.len() == 20 && k[6] == 'm' && k[16] == 'e' {
        14

    } else if k.len() == 30 && k[6] == 'm' && k[26] == 'r' {
        15

    } else if k.len() == 25 && k[6] == 'm' && k[21] == 'a' {
        16

    } else if k.len() == 19 && k[6] == 's' && k[15] == 'e' {
        17

    } else if k.len() == 22 && k[6] == 's' && k[18] == 't' {
        18

    } else if k.len() == 17 && k[6] == 's' && k[13] == '.' {
        19

    } else if k.len() == 20 && k[6] == 's' && k[16] == 's' {
        20
    } else {
        21
    }
}

/// Key law: every key of the robot's store has exactly one adapter, so every
/// entry can travel between the robot and the surface: the adapted keys are
/// the store's keys, and no key is registered twice.
pub proof fn lemma_every_key_adapted_once()
    ensures
        forall|k: Seq<char>| #[trigger] store_keys().contains(k) ==> adapted_keys_spec().contains(k),
        forall|i: int, j: int| 0 <= i < j < adapted_keys_spec().len() ==> adapted_keys_spec()[i] != adapted_keys_spec()[j],
        adapted_keys_spec().len() == 21,
{
    reveal_strlit("robot.system_info");
    reveal_strlit("robot.status");
    reveal_strlit("robot.status.leak");
    reveal_strlit("robot.cameras");
    reveal_strlit("robot.motors.armed");
    reveal_strlit("robot.motors.speed");
    reveal_strlit("robot.leveling.mode");
    reveal_strlit("robot.leveling.pid");
    reveal_strlit("robot.leveling.pitch");
    reveal_strlit("robot.leveling.roll");
    reveal_strlit("robot.leveling.correction");
    reveal_strlit("robot.movement.joystick");
    reveal_strlit("robot.movement.opencv");
    reveal_strlit("robot.movement.leveling");
    reveal_strlit("robot.movement.depth");
    reveal_strlit("robot.movement.ai.depth.target");
    reveal_strlit("robot.movement.calculated");
    reveal_strlit("robot.sensors.depth");
    reveal_strlit("robot.sensors.inertial");
    reveal_strlit("robot.sensors.mag");
    reveal_strlit("robot.sensors.fusion");
    let keys = adapted_keys_spec();
    assert forall|k: Seq<char>| #[trigger] store_keys().contains(k) implies keys.contains(k) by {
        if k == SYSTEM_INFO@ { assert(keys[0] == k); }
        else if k == STATUS@ { assert(keys[1] == k); }
        else if k == LEAK@ { assert(keys[2] == k); }
        else if k == CAMERAS@ { assert(keys[3] == k); }
        else if k == ARMED@ { assert(keys[4] == k); }
        else if k == MOTOR_SPEED@ { assert(keys[5] == k); }
        else if k == LEVELING_MODE@ { assert(keys[6] == k); }
        else if k == LEVELING_PID@ { assert(keys[7] == k); }
        else if k == LEVELING_PITCH_RESULT@ { assert(keys[8] == k); }
        else if k == LEVELING_ROLL_RESULT@ { assert(keys[9] == k); }
        else if k == LEVELING_CORRECTION@ { assert(keys[10] == k); }
        else if k == MOVEMENT_JOYSTICK@ { assert(keys[11] == k); }
        else if k == MOVEMENT_OPENCV@ { assert(keys[12] == k); }
        else if k == MOVEMENT_LEVELING@ { assert(keys[13] == k); }
        else if k == MOVEMENT_DEPTH@ { assert(keys[14] == k); }
        else if k == DEPTH_TARGET@ { assert(keys[15] == k); }
        else if k == MOVEMENT_CALCULATED@ { assert(keys[16] == k); }
        else if k == RAW_DEPTH@ { assert(keys[17] == k); }
        else if k == RAW_INERTIAL@ { assert(keys[18] == k); }
        else if k == RAW_MAGNETIC@ { assert(keys[19] == k); }
        else { assert(keys[20] == k); }
    }
    assert forall|i: int| 0 <= i < keys.len() implies #[trigger] adapter_position(keys[i]) == i by {
        if i == 0 {
            assert(adapter_position(keys[0]) == 0);

        } else if i == 1 {
            assert(adapter_position(keys[1]) == 1);

        } else if i == 2 {
            assert(adapter_position(keys[2]) == 2);

        } else if i == 3 {
            assert(adapter_position(keys[3]) == 3);

        } else if i == 4 {
            assert(adapter_position(keys[4]) == 4);

        } else if i == 5 {
            assert(adapter_position(keys[5]) == 5);

        } else if i == 6 {
            assert(adapter_position(keys[6]) == 6);

        } else if i == 7 {
            assert(adapter_position(keys[7]) == 7);

        } else if i == 8 {
            assert(adapter_position(keys[8]) == 8);

        } else if i == 9 {
            assert(adapter_position(keys[9]) == 9);

        } else if i == 10 {
            assert(adapter_position(keys[10]) == 10);

        } else if i == 11 {
            assert(adapter_position(keys[11]) == 11);

        } else if i == 12 {
            assert(adapter_position(keys[12]) == 12);

        } else if i == 13 {
            assert(adapter_position(keys[13]) == 13);

        } else if i == 14 {
            assert(adapter_position(keys[14]) == 14);

        } else if i == 15 {
            assert(adapter_position(keys[15]) == 15);

        } else if i == 16 {
            assert(adapter_position(keys[16]) == 16);

        } else if i == 17 {
            assert(adapter_position(keys[17]) == 17);

        } else if i == 18 {
            assert(adapter_position(keys[18]) == 18);

        } else if i == 19 {
            assert(adapter_position(keys[19]) == 19);

        } else if i == 20 {
            assert(adapter_position(keys[20]) == 20);
        }
    }
    assert forall|i: int, j: int| 0 <= i < j < keys.len() implies keys[i] != keys[j] by {
        assert(adapter_position(keys[i]) == i);
        assert(adapter_position(keys[j]) == j);
    }
}

/// The keys whose values travel between the robot and the surface, in the
/// order in which their adapters are registered.
pub fn adapted_keys() -> (keys: Vec<&'static str>)
    ensures
        keys@.map_values(|k: &str| k@) == adapted_keys_spec(),
{
    let keys = vec![
        SYSTEM_INFO, STATUS, LEAK, CAMERAS, ARMED, MOTOR_SPEED, LEVELING_MODE,
        LEVELING_PID, LEVELING_PITCH_RESULT, LEVELING_ROLL_RESULT, LEVELING_CORRECTION,
        MOVEMENT_JOYSTICK, MOVEMENT_OPENCV, MOVEMENT_LEVELING, MOVEMENT_DEPTH, DEPTH_TARGET,
        MOVEMENT_CALCULATED, RAW_DEPTH, RAW_INERTIAL, RAW_MAGNETIC, ORIENTATION,
    ];
    assert(keys@.map_values(|k: &str| k@) =~= adapted_keys_spec());
    keys
}

/// Whether values of `key` have a serialization adapter.
pub fn is_adapted(key: &str) -> (r: bool)
    ensures
        r == adapted_keys_spec().contains(key@),
{
    let keys = adapted_keys();
    let n = keys.len();
    let mut i: usize = 0;
    while i < n
        invariant
            i <= n,
            n == keys.len(),
            keys@.map_values(|k: &str| k@) == adapted_keys_spec(),
            forall|j: int| 0 <= j < i ==> adapted_keys_spec()[j] != key@,
        decreases n - i,
    {
        if crate::key::str_eq(keys[i], key) {
            assert(adapted_keys_spec()[i as int] == key@);
            return true;
        }
        i = i + 1;
    }
    false
}

} // verus!
