//! The binary form of each record, and of a whole recording.
//!
//! A record is written as a run of fields, each a tag, the length of its
//! payload in two bytes, and the payload. All numbers are written least
//! significant byte first. A member that may be absent and is absent has no
//! field; a member that is present has one even where its value is zero. A
//! reader starts from the default of the record, takes the fields in their
//! order, lets a later field of a member replace an earlier one, and passes
//! over every tag that it does not know, so that a reader of this version
//! reads what a later version writes.
//!
//! | record | tags |
//! |---|---|
//! | vector | 1 x, 2 y, 3 z |
//! | quaternion | 1 x, 2 y, 3 z, 4 w |
//! | IMU sample | 1 accel, 2 gyro, 3 mag, 4 quaternion |
//! | actuator state | 1 actuator, 2 online, 3 position, 4 velocity, 5 torque, 6 temperature, 7 voltage, 8 current |
//! | actuator command | 1 actuator, 2 position, 3 velocity, 4 effort |
//! | actuator config | 1 actuator, 2 kp, 3 kd, 4 ki, 5 max torque, 6 name |
//! | header | 1 uuid, 2 task, 3 robot platform, 4 robot serial, 5 start, 6 end, 7 actuator config (repeated) |
//! | frame | 1 video timestamp, 2 frame number, 3 inference step, 4 actuator state (repeated), 5 command, 6 IMU sample |

pub mod actuator;
pub mod container;
pub mod frame;
pub mod header;
pub mod imu;
