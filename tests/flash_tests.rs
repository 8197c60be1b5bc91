use tekflash::device::{
    device_id, mode_switch_packet, DeviceError, DeviceMode, NORMAL_MODE_ID,
    PROGRAM_MODE_ID,
};
use tekflash::flash::{plan_for_bus, plan_stage, FlashError, FlashSequence, Stage, Task, FINISH_DELAY_SECS, SETTLE_DELAY_SECS};
use tekflash::image::parse_hex_lines;
use tekflash::upload::{upload_packets, verify_checksum};

/// A keyboard on a bus beside one unrelated device.
struct SimulatedKeyboard {
    id: u32,
    /// Added to the checksum the keyboard reports.
    checksum_error: u16,
    received: Vec<Vec<u8>>,
    reattached: bool,
}

impl SimulatedKeyboard {
    fn bus(&self) -> Vec<u32> {
        vec![device_id(0x046D, 0xC52B), self.id]
    }

    fn write(&mut self, packet: &[u8]) -> usize {
        if packet == &mode_switch_packet()[..] {
            self.id = if self.id == NORMAL_MODE_ID { PROGRAM_MODE_ID } else { NORMAL_MODE_ID };
        }
        self.received.push(packet.to_vec());
        packet.len()
    }

    /// Sums the announced number of bytes out of the data packets.
    fn response(&self) -> Vec<u8> {
        let start = self.received.iter().position(|p| p[0] == 0x33).unwrap();
        let header = &self.received[start];
        let len = (header[5] as usize) << 8 | header[6] as usize;
        let data: Vec<u8> = self.received[start + 1..self.received.len() - 1].concat();
        let mut sum: u16 = 0;
        for b in &data[..len] {
            sum = sum.wrapping_add(*b as u16);
        }
        let sum = sum.wrapping_add(self.checksum_error);
        vec![(sum >> 8) as u8, sum as u8]
    }
}

fn run_stage(kb: &mut SimulatedKeyboard, stage: Stage, firmware: &Vec<u8>) -> Result<(), FlashError> {
    let (_, task) = plan_for_bus(stage, &kb.bus()).map_err(FlashError::Device)?;
    match task {
        Task::SwitchMode => {
            kb.write(&mode_switch_packet());
            Ok(())
        }
        Task::Upload => {
            for p in upload_packets(firmware) {
                kb.write(&p);
            }
            verify_checksum(firmware, &kb.response()).map_err(FlashError::Upload)
        }
        Task::Reattach => {
            kb.reattached = true;
            Ok(())
        }
    }
}

fn flash(kb: &mut SimulatedKeyboard, firmware: &Vec<u8>) -> (Result<(), FlashError>, Vec<Stage>, u64) {
    let mut seq = FlashSequence::new();
    let mut ran = Vec::new();
    let mut waited = 0;
    while let Some(stage) = seq.stage() {
        ran.push(stage);
        let r = run_stage(kb, stage, firmware);
        waited += seq.complete(r);
    }
    (seq.outcome(), ran, waited)
}

fn scenario_firmware() -> Vec<u8> {
    let lines = vec![":02000000ABCD86".to_string(), ":00000001FF".to_string()];
    parse_hex_lines(&lines).unwrap()
}

fn keyboard(checksum_error: u16) -> SimulatedKeyboard {
    SimulatedKeyboard { id: NORMAL_MODE_ID, checksum_error, received: Vec::new(), reattached: false }
}

#[test]
fn end_to_end_with_correct_checksum_succeeds() {
    let fw = scenario_firmware();
    assert!(fw.len() >= 4);
    assert_eq!(&fw[0..2], &[0xAB, 0xCD]);
    let mut kb = keyboard(0);
    let (outcome, ran, waited) = flash(&mut kb, &fw);
    assert_eq!(outcome, Ok(()));
    assert_eq!(ran, vec![Stage::Prepare, Stage::Program, Stage::Finish, Stage::Release]);
    assert_eq!(waited, 2 + 2 + 4);
    assert_eq!(kb.id, NORMAL_MODE_ID);
    assert!(kb.reattached);
}

#[test]
fn end_to_end_with_wrong_checksum_still_finishes_and_releases() {
    let fw = scenario_firmware();
    let mut kb = keyboard(1);
    let (outcome, ran, _) = flash(&mut kb, &fw);
    assert_eq!(
        outcome,
        Err(FlashError::Upload(tekflash::upload::UploadError::ChecksumMismatch {
            expected: 0x0178,
            reported: 0x0179
        }))
    );
    assert_eq!(ran, vec![Stage::Prepare, Stage::Program, Stage::Finish, Stage::Release]);
    assert_eq!(kb.id, NORMAL_MODE_ID);
    assert!(kb.reattached);
}

#[test]
fn keyboard_already_in_program_mode_is_not_programmed() {
    let fw = scenario_firmware();
    let mut kb = keyboard(0);
    kb.id = PROGRAM_MODE_ID;
    let (outcome, ran, waited) = flash(&mut kb, &fw);
    assert_eq!(outcome, Err(FlashError::Device(DeviceError::AlreadyInProgramMode)));
    assert_eq!(ran, vec![Stage::Prepare, Stage::Finish, Stage::Release]);
    assert_eq!(waited, 2 + 4);
    assert!(!kb.received.iter().any(|p| p[0] == 0x33));
    assert_eq!(kb.id, NORMAL_MODE_ID);
}

#[test]
fn plan_follows_stage_and_mode() {
    assert_eq!(plan_stage(Stage::Prepare, DeviceMode::Normal), Ok(Task::SwitchMode));
    assert_eq!(plan_stage(Stage::Prepare, DeviceMode::Program), Err(DeviceError::AlreadyInProgramMode));
    assert_eq!(plan_stage(Stage::Program, DeviceMode::Normal), Err(DeviceError::StillInNormalMode));
    assert_eq!(plan_stage(Stage::Program, DeviceMode::Program), Ok(Task::Upload));
    assert_eq!(plan_stage(Stage::Finish, DeviceMode::Normal), Err(DeviceError::AlreadyInNormalMode));
    assert_eq!(plan_stage(Stage::Finish, DeviceMode::Program), Ok(Task::SwitchMode));
    assert_eq!(plan_stage(Stage::Release, DeviceMode::Normal), Ok(Task::Reattach));
    assert_eq!(plan_stage(Stage::Program, DeviceMode::Unrelated), Err(DeviceError::UnrelatedDevice));
}

#[test]
fn sequence_records_program_result_only() {
    let mut seq = FlashSequence::new();
    assert_eq!(seq.outcome(), Err(FlashError::NotProgrammed));
    assert_eq!(seq.complete(Ok(())), SETTLE_DELAY_SECS);
    assert_eq!(seq.stage(), Some(Stage::Program));
    assert_eq!(seq.complete(Ok(())), SETTLE_DELAY_SECS);
    assert_eq!(seq.outcome(), Ok(()));
    assert_eq!(seq.complete(Err(FlashError::Device(DeviceError::AlreadyInNormalMode))), FINISH_DELAY_SECS);
    assert_eq!(seq.complete(Err(FlashError::Device(DeviceError::Transfer))), 0);
    assert_eq!(seq.stage(), None);
    assert_eq!(seq.outcome(), Ok(()));
}

#[test]
fn missing_keyboard_skips_programming() {
    let mut seq = FlashSequence::new();
    seq.complete(Err(FlashError::Device(DeviceError::NoDevice)));
    assert_eq!(seq.stage(), Some(Stage::Finish));
    assert_eq!(seq.outcome(), Err(FlashError::Device(DeviceError::NoDevice)));
}

#[test]
fn plan_for_bus_finds_keyboard_and_task() {
    let other = device_id(0x046D, 0xC52B);
    assert_eq!(plan_for_bus(Stage::Prepare, &vec![other, NORMAL_MODE_ID]), Ok((1, Task::SwitchMode)));
    assert_eq!(plan_for_bus(Stage::Program, &vec![PROGRAM_MODE_ID, other]), Ok((0, Task::Upload)));
    assert_eq!(
        plan_for_bus(Stage::Program, &vec![other, NORMAL_MODE_ID]),
        Err(DeviceError::StillInNormalMode)
    );
    assert_eq!(plan_for_bus(Stage::Release, &vec![other]), Err(DeviceError::NoDevice));
    assert_eq!(
        plan_for_bus(Stage::Finish, &vec![PROGRAM_MODE_ID, NORMAL_MODE_ID]),
        Err(DeviceError::MultipleDevices)
    );
}
