use vstd::prelude::*;

verus! {

pub const PROTOCOL_FUNCTION_DEVICE_INFO_BASE: u8 = 0;
pub const PROTOCOL_FUNCTION_POSE_BASE: u8 = 10;
pub const PROTOCOL_FUNCTIONAL_ARM_BASE: u8 = 20;
pub const PROTOCOL_FUNCTION_HOME_BASE: u8 = 30;
pub const PROTOCOL_FUNCTION_HHT_BASE: u8 = 40;
pub const PROTOCOL_FUNCTION_ARM_ORIENTATION_BASE: u8 = 50;
pub const PROTOCOL_FUNCTION_END_EFFECTOR_BASE: u8 = 60;
pub const PROTOCOL_FUNCTION_JOG_BASE: u8 = 70;
pub const PROTOCOL_FUNCTION_PTP_BASE: u8 = 80;
pub const PROTOCOL_FUNCTION_CP_BASE: u8 = 90;
pub const PROTOCOL_FUNCTION_ARC_BASE: u8 = 100;
pub const PROTOCOL_FUNCTION_WAIT_BASE: u8 = 110;
pub const PROTOCOL_FUNCTION_TRIG_BASE: u8 = 120;
pub const PROTOCOL_FUNCTION_EIO_BASE: u8 = 130;
pub const PROTOCOL_FUNCTION_CAL_BASE: u8 = 140;
pub const PROTOCOL_FUNCTION_WIFI_BASE: u8 = 150;
pub const PROTOCOL_FUNCTION_FIRMWARE_BASE: u8 = 160;
pub const PROTOCOL_FUNCTION_LOST_STEP_BASE: u8 = 170;
pub const PROTOCOL_FUNCTION_CHECK_MODEL_BASE: u8 = 180;
pub const PROTOCOL_FUNCTION_PULSE_MODE_BASE: u8 = 190;
pub const PROTOCOL_TEST_BASE: u8 = 220;
pub const PROTOCOL_FUNCTION_QUEUED_CMD_BASE: u8 = 240;

/// Command identifiers understood by the controller firmware, grouped in
/// blocks of ten (the queued-command control block starts at 240).
#[derive(Clone, Copy, Debug, PartialEq, Eq, Structural)]
pub enum ProtocolID {
    ProtocolDeviceSN,
    ProtocolDeviceName,
    ProtocolDeviceVersion,
    ProtocolDeviceWithL,
    ProtocolDeviceTime,
    ProtocolGetPose,
    ProtocolResetPose,
    ProtocolGetKinematics,
    ProtocolGetPoseL,
    ProtocolAlarmsState,
    ProtocolHOMEParams,
    ProtocolHOMECmd,
    ProtocolAutoLeveling,
    ProtocolHHTTrigMode,
    ProtocolHHTTrigOutputEnabled,
    ProtocolHHTTrigOutput,
    ProtocolArmOrientation,
    ProtocolEndEffectorParams,
    ProtocolEndEffectorLaser,
    ProtocolEndEffectorSuctionCup,
    ProtocolEndEffectorGripper,
    ProtocolJOGJointParams,
    ProtocolJOGCoordinateParams,
    ProtocolJOGCommonParams,
    ProtocolJOGCmd,
    ProtocolJOGLParams,
    ProtocolPTPJointParams,
    ProtocolPTPCoordinateParams,
    ProtocolPTPJumpParams,
    ProtocolPTPCommonParams,
    ProtocolPTPCmd,
    ProtocolPTPLParams,
    ProtocolPTPWithLCmd,
    ProtocolPTPJump2Params,
    ProtocolPTPPOCmd,
    ProtocolPTPPOWithLCmd,
    ProtocolCPParams,
    ProtocolCPCmd,
    ProtocolCPLECmd,
    ProtocolCPRHoldEnable,
    ProtocolCPCommonParams,
    ProtocolARCParams,
    ProtocolARCCmd,
    ProtocolCircleCmd,
    ProtocolARCCommonParams,
    ProtocolWAITCmd,
    ProtocolTRIGCmd,
    ProtocolIOMultiplexing,
    ProtocolIODO,
    ProtocolIOPWM,
    ProtocolIODI,
    ProtocolIOADC,
    ProtocolEMotor,
    ProtocolEMotorS,
    ProtocolColorSensor,
    ProtocolIRSwitch,
    ProtocolAngleSensorStaticError,
    ProtocolAngleSensorCoef,
    ProtocolBaseDecoderStaticError,
    ProtocolLRHandCalibrateValue,
    ProtocolWIFIConfigMode,
    ProtocolWIFISSID,
    ProtocolWIFIPassword,
    ProtocolWIFIIPAddress,
    ProtocolWIFINetmask,
    ProtocolWIFIGateway,
    ProtocolWIFIDNS,
    ProtocolWIFIConnectStatus,
    ProtocolFirmwareSwitch,
    ProtocolFirmwareMode,
    ProtocolLostStepSet,
    ProtocolLostStepDetect,
    ProtocolCheckUART4PeripheralsModel,
    ProtocolUART4PeripheralsEnabled,
    ProtocolFunctionPulseMode,
    ProtocolUserParams,
    ProtocolPTPTime,
    ProtocolServoPIDParams,
    ProtocolServoControlLoop,
    ProtocolSaveServoPIDParams,
    ProtocolQueuedCmdStartExec,
    ProtocolQueuedCmdStopExec,
    ProtocolQueuedCmdForceStopExec,
    ProtocolQueuedCmdStartDownload,
    ProtocolQueuedCmdStopDownload,
    ProtocolQueuedCmdClear,
    ProtocolQueuedCmdCurrentIndex,
    ProtocolQueuedCmdLeftSpace,
}

impl ProtocolID {
    /// The byte that carries this command on the wire.
    pub open spec fn spec_code(self) -> u8 {
        match self {
            ProtocolID::ProtocolDeviceSN => (PROTOCOL_FUNCTION_DEVICE_INFO_BASE + 0) as u8,
            ProtocolID::ProtocolDeviceName => (PROTOCOL_FUNCTION_DEVICE_INFO_BASE + 1) as u8,
            ProtocolID::ProtocolDeviceVersion => (PROTOCOL_FUNCTION_DEVICE_INFO_BASE + 2) as u8,
            ProtocolID::ProtocolDeviceWithL => (PROTOCOL_FUNCTION_DEVICE_INFO_BASE + 3) as u8,
            ProtocolID::ProtocolDeviceTime => (PROTOCOL_FUNCTION_DEVICE_INFO_BASE + 4) as u8,
            ProtocolID::ProtocolGetPose => (PROTOCOL_FUNCTION_POSE_BASE + 0) as u8,
            ProtocolID::ProtocolResetPose => (PROTOCOL_FUNCTION_POSE_BASE + 1) as u8,
            ProtocolID::ProtocolGetKinematics => (PROTOCOL_FUNCTION_POSE_BASE + 2) as u8,
            ProtocolID::ProtocolGetPoseL => (PROTOCOL_FUNCTION_POSE_BASE + 3) as u8,
            ProtocolID::ProtocolAlarmsState => (PROTOCOL_FUNCTIONAL_ARM_BASE + 0) as u8,
            ProtocolID::ProtocolHOMEParams => (PROTOCOL_FUNCTION_HOME_BASE + 0) as u8,
            ProtocolID::ProtocolHOMECmd => (PROTOCOL_FUNCTION_HOME_BASE + 1) as u8,
            ProtocolID::ProtocolAutoLeveling => (PROTOCOL_FUNCTION_HOME_BASE + 2) as u8,
            ProtocolID::ProtocolHHTTrigMode => (PROTOCOL_FUNCTION_HHT_BASE + 0) as u8,
            ProtocolID::ProtocolHHTTrigOutputEnabled => (PROTOCOL_FUNCTION_HHT_BASE + 1) as u8,
            ProtocolID::ProtocolHHTTrigOutput => (PROTOCOL_FUNCTION_HHT_BASE + 2) as u8,
            ProtocolID::ProtocolArmOrientation => (PROTOCOL_FUNCTION_ARM_ORIENTATION_BASE + 0) as u8,
            ProtocolID::ProtocolEndEffectorParams => (PROTOCOL_FUNCTION_END_EFFECTOR_BASE + 0) as u8,
            ProtocolID::ProtocolEndEffectorLaser => (PROTOCOL_FUNCTION_END_EFFECTOR_BASE + 1) as u8,
            ProtocolID::ProtocolEndEffectorSuctionCup => (PROTOCOL_FUNCTION_END_EFFECTOR_BASE + 2) as u8,
            ProtocolID::ProtocolEndEffectorGripper => (PROTOCOL_FUNCTION_END_EFFECTOR_BASE + 3) as u8,
            ProtocolID::ProtocolJOGJointParams => (PROTOCOL_FUNCTION_JOG_BASE + 0) as u8,
            ProtocolID::ProtocolJOGCoordinateParams => (PROTOCOL_FUNCTION_JOG_BASE + 1) as u8,
            ProtocolID::ProtocolJOGCommonParams => (PROTOCOL_FUNCTION_JOG_BASE + 2) as u8,
            ProtocolID::ProtocolJOGCmd => (PROTOCOL_FUNCTION_JOG_BASE + 3) as u8,
            ProtocolID::ProtocolJOGLParams => (PROTOCOL_FUNCTION_JOG_BASE + 4) as u8,
            ProtocolID::ProtocolPTPJointParams => (PROTOCOL_FUNCTION_PTP_BASE + 0) as u8,
            ProtocolID::ProtocolPTPCoordinateParams => (PROTOCOL_FUNCTION_PTP_BASE + 1) as u8,
            ProtocolID::ProtocolPTPJumpParams => (PROTOCOL_FUNCTION_PTP_BASE + 2) as u8,
            ProtocolID::ProtocolPTPCommonParams => (PROTOCOL_FUNCTION_PTP_BASE + 3) as u8,
            ProtocolID::ProtocolPTPCmd => (PROTOCOL_FUNCTION_PTP_BASE + 4) as u8,
            ProtocolID::ProtocolPTPLParams => (PROTOCOL_FUNCTION_PTP_BASE + 5) as u8,
            ProtocolID::ProtocolPTPWithLCmd => (PROTOCOL_FUNCTION_PTP_BASE + 6) as u8,
            ProtocolID::ProtocolPTPJump2Params => (PROTOCOL_FUNCTION_PTP_BASE + 7) as u8,
            ProtocolID::ProtocolPTPPOCmd => (PROTOCOL_FUNCTION_PTP_BASE + 8) as u8,
            ProtocolID::ProtocolPTPPOWithLCmd => (PROTOCOL_FUNCTION_PTP_BASE + 9) as u8,
            ProtocolID::ProtocolCPParams => (PROTOCOL_FUNCTION_CP_BASE + 0) as u8,
            ProtocolID::ProtocolCPCmd => (PROTOCOL_FUNCTION_CP_BASE + 1) as u8,
            ProtocolID::ProtocolCPLECmd => (PROTOCOL_FUNCTION_CP_BASE + 2) as u8,
            ProtocolID::ProtocolCPRHoldEnable => (PROTOCOL_FUNCTION_CP_BASE + 3) as u8,
            ProtocolID::ProtocolCPCommonParams => (PROTOCOL_FUNCTION_CP_BASE + 4) as u8,
            ProtocolID::ProtocolARCParams => (PROTOCOL_FUNCTION_ARC_BASE + 0) as u8,
            ProtocolID::ProtocolARCCmd => (PROTOCOL_FUNCTION_ARC_BASE + 1) as u8,
            ProtocolID::ProtocolCircleCmd => (PROTOCOL_FUNCTION_ARC_BASE + 2) as u8,
            ProtocolID::ProtocolARCCommonParams => (PROTOCOL_FUNCTION_ARC_BASE + 3) as u8,
            ProtocolID::ProtocolWAITCmd => (PROTOCOL_FUNCTION_WAIT_BASE + 0) as u8,
            ProtocolID::ProtocolTRIGCmd => (PROTOCOL_FUNCTION_TRIG_BASE + 0) as u8,
            ProtocolID::ProtocolIOMultiplexing => (PROTOCOL_FUNCTION_EIO_BASE + 0) as u8,
            ProtocolID::ProtocolIODO => (PROTOCOL_FUNCTION_EIO_BASE + 1) as u8,
            ProtocolID::ProtocolIOPWM => (PROTOCOL_FUNCTION_EIO_BASE + 2) as u8,
            ProtocolID::ProtocolIODI => (PROTOCOL_FUNCTION_EIO_BASE + 3) as u8,
            ProtocolID::ProtocolIOADC => (PROTOCOL_FUNCTION_EIO_BASE + 4) as u8,
            ProtocolID::ProtocolEMotor => (PROTOCOL_FUNCTION_EIO_BASE + 5) as u8,
            ProtocolID::ProtocolEMotorS => (PROTOCOL_FUNCTION_EIO_BASE + 6) as u8,
            ProtocolID::ProtocolColorSensor => (PROTOCOL_FUNCTION_EIO_BASE + 7) as u8,
            ProtocolID::ProtocolIRSwitch => (PROTOCOL_FUNCTION_EIO_BASE + 8) as u8,
            ProtocolID::ProtocolAngleSensorStaticError => (PROTOCOL_FUNCTION_CAL_BASE + 0) as u8,
            ProtocolID::ProtocolAngleSensorCoef => (PROTOCOL_FUNCTION_CAL_BASE + 1) as u8,
            ProtocolID::ProtocolBaseDecoderStaticError => (PROTOCOL_FUNCTION_CAL_BASE + 2) as u8,
            ProtocolID::ProtocolLRHandCalibrateValue => (PROTOCOL_FUNCTION_CAL_BASE + 3) as u8,
            ProtocolID::ProtocolWIFIConfigMode => (PROTOCOL_FUNCTION_WIFI_BASE + 0) as u8,
            ProtocolID::ProtocolWIFISSID => (PROTOCOL_FUNCTION_WIFI_BASE + 1) as u8,
            ProtocolID::ProtocolWIFIPassword => (PROTOCOL_FUNCTION_WIFI_BASE + 2) as u8,
            ProtocolID::ProtocolWIFIIPAddress => (PROTOCOL_FUNCTION_WIFI_BASE + 3) as u8,
            ProtocolID::ProtocolWIFINetmask => (PROTOCOL_FUNCTION_WIFI_BASE + 4) as u8,
            ProtocolID::ProtocolWIFIGateway => (PROTOCOL_FUNCTION_WIFI_BASE + 5) as u8,
            ProtocolID::ProtocolWIFIDNS => (PROTOCOL_FUNCTION_WIFI_BASE + 6) as u8,
            ProtocolID::ProtocolWIFIConnectStatus => (PROTOCOL_FUNCTION_WIFI_BASE + 7) as u8,
            ProtocolID::ProtocolFirmwareSwitch => (PROTOCOL_FUNCTION_FIRMWARE_BASE + 0) as u8,
            ProtocolID::ProtocolFirmwareMode => (PROTOCOL_FUNCTION_FIRMWARE_BASE + 1) as u8,
            ProtocolID::ProtocolLostStepSet => (PROTOCOL_FUNCTION_LOST_STEP_BASE + 0) as u8,
            ProtocolID::ProtocolLostStepDetect => (PROTOCOL_FUNCTION_LOST_STEP_BASE + 1) as u8,
            ProtocolID::ProtocolCheckUART4PeripheralsModel => (PROTOCOL_FUNCTION_CHECK_MODEL_BASE + 1) as u8,
            ProtocolID::ProtocolUART4PeripheralsEnabled => (PROTOCOL_FUNCTION_CHECK_MODEL_BASE + 2) as u8,
            ProtocolID::ProtocolFunctionPulseMode => (PROTOCOL_FUNCTION_PULSE_MODE_BASE + 1) as u8,
            ProtocolID::ProtocolUserParams => (PROTOCOL_TEST_BASE + 0) as u8,
            ProtocolID::ProtocolPTPTime => (PROTOCOL_TEST_BASE + 1) as u8,
            ProtocolID::ProtocolServoPIDParams => (PROTOCOL_TEST_BASE + 2) as u8,
            ProtocolID::ProtocolServoControlLoop => (PROTOCOL_TEST_BASE + 3) as u8,
            ProtocolID::ProtocolSaveServoPIDParams => (PROTOCOL_TEST_BASE + 4) as u8,
            ProtocolID::ProtocolQueuedCmdStartExec => (PROTOCOL_FUNCTION_QUEUED_CMD_BASE + 0) as u8,
            ProtocolID::ProtocolQueuedCmdStopExec => (PROTOCOL_FUNCTION_QUEUED_CMD_BASE + 1) as u8,
            ProtocolID::ProtocolQueuedCmdForceStopExec => (PROTOCOL_FUNCTION_QUEUED_CMD_BASE + 2) as u8,
            ProtocolID::ProtocolQueuedCmdStartDownload => (PROTOCOL_FUNCTION_QUEUED_CMD_BASE + 3) as u8,
            ProtocolID::ProtocolQueuedCmdStopDownload => (PROTOCOL_FUNCTION_QUEUED_CMD_BASE + 4) as u8,
            ProtocolID::ProtocolQueuedCmdClear => (PROTOCOL_FUNCTION_QUEUED_CMD_BASE + 5) as u8,
            ProtocolID::ProtocolQueuedCmdCurrentIndex => (PROTOCOL_FUNCTION_QUEUED_CMD_BASE + 6) as u8,
            ProtocolID::ProtocolQueuedCmdLeftSpace => (PROTOCOL_FUNCTION_QUEUED_CMD_BASE + 7) as u8,
        }
    }

    #[verifier::when_used_as_spec(spec_code)]
    pub fn code(self) -> (r: u8)
        ensures
            r == self.spec_code(),
    {
        match self {
            ProtocolID::ProtocolDeviceSN => PROTOCOL_FUNCTION_DEVICE_INFO_BASE + 0,
            ProtocolID::ProtocolDeviceName => PROTOCOL_FUNCTION_DEVICE_INFO_BASE + 1,
            ProtocolID::ProtocolDeviceVersion => PROTOCOL_FUNCTION_DEVICE_INFO_BASE + 2,
            ProtocolID::ProtocolDeviceWithL => PROTOCOL_FUNCTION_DEVICE_INFO_BASE + 3,
            ProtocolID::ProtocolDeviceTime => PROTOCOL_FUNCTION_DEVICE_INFO_BASE + 4,
            ProtocolID::ProtocolGetPose => PROTOCOL_FUNCTION_POSE_BASE + 0,
            ProtocolID::ProtocolResetPose => PROTOCOL_FUNCTION_POSE_BASE + 1,
            ProtocolID::ProtocolGetKinematics => PROTOCOL_FUNCTION_POSE_BASE + 2,
            ProtocolID::ProtocolGetPoseL => PROTOCOL_FUNCTION_POSE_BASE + 3,
            ProtocolID::ProtocolAlarmsState => PROTOCOL_FUNCTIONAL_ARM_BASE + 0,
            ProtocolID::ProtocolHOMEParams => PROTOCOL_FUNCTION_HOME_BASE + 0,
            ProtocolID::ProtocolHOMECmd => PROTOCOL_FUNCTION_HOME_BASE + 1,
            ProtocolID::ProtocolAutoLeveling => PROTOCOL_FUNCTION_HOME_BASE + 2,
            ProtocolID::ProtocolHHTTrigMode => PROTOCOL_FUNCTION_HHT_BASE + 0,
            ProtocolID::ProtocolHHTTrigOutputEnabled => PROTOCOL_FUNCTION_HHT_BASE + 1,
            ProtocolID::ProtocolHHTTrigOutput => PROTOCOL_FUNCTION_HHT_BASE + 2,
            ProtocolID::ProtocolArmOrientation => PROTOCOL_FUNCTION_ARM_ORIENTATION_BASE + 0,
            ProtocolID::ProtocolEndEffectorParams => PROTOCOL_FUNCTION_END_EFFECTOR_BASE + 0,
            ProtocolID::ProtocolEndEffectorLaser => PROTOCOL_FUNCTION_END_EFFECTOR_BASE + 1,
            ProtocolID::ProtocolEndEffectorSuctionCup => PROTOCOL_FUNCTION_END_EFFECTOR_BASE + 2,
            ProtocolID::ProtocolEndEffectorGripper => PROTOCOL_FUNCTION_END_EFFECTOR_BASE + 3,
            ProtocolID::ProtocolJOGJointParams => PROTOCOL_FUNCTION_JOG_BASE + 0,
            ProtocolID::ProtocolJOGCoordinateParams => PROTOCOL_FUNCTION_JOG_BASE + 1,
            ProtocolID::ProtocolJOGCommonParams => PROTOCOL_FUNCTION_JOG_BASE + 2,
            ProtocolID::ProtocolJOGCmd => PROTOCOL_FUNCTION_JOG_BASE + 3,
            ProtocolID::ProtocolJOGLParams => PROTOCOL_FUNCTION_JOG_BASE + 4,
            ProtocolID::ProtocolPTPJointParams => PROTOCOL_FUNCTION_PTP_BASE + 0,
            ProtocolID::ProtocolPTPCoordinateParams => PROTOCOL_FUNCTION_PTP_BASE + 1,
            ProtocolID::ProtocolPTPJumpParams => PROTOCOL_FUNCTION_PTP_BASE + 2,
            ProtocolID::ProtocolPTPCommonParams => PROTOCOL_FUNCTION_PTP_BASE + 3,
            ProtocolID::ProtocolPTPCmd => PROTOCOL_FUNCTION_PTP_BASE + 4,
            ProtocolID::ProtocolPTPLParams => PROTOCOL_FUNCTION_PTP_BASE + 5,
            ProtocolID::ProtocolPTPWithLCmd => PROTOCOL_FUNCTION_PTP_BASE + 6,
            ProtocolID::ProtocolPTPJump2Params => PROTOCOL_FUNCTION_PTP_BASE + 7,
            ProtocolID::ProtocolPTPPOCmd => PROTOCOL_FUNCTION_PTP_BASE + 8,
            ProtocolID::ProtocolPTPPOWithLCmd => PROTOCOL_FUNCTION_PTP_BASE + 9,
            ProtocolID::ProtocolCPParams => PROTOCOL_FUNCTION_CP_BASE + 0,
            ProtocolID::ProtocolCPCmd => PROTOCOL_FUNCTION_CP_BASE + 1,
            ProtocolID::ProtocolCPLECmd => PROTOCOL_FUNCTION_CP_BASE + 2,
            ProtocolID::ProtocolCPRHoldEnable => PROTOCOL_FUNCTION_CP_BASE + 3,
            ProtocolID::ProtocolCPCommonParams => PROTOCOL_FUNCTION_CP_BASE + 4,
            ProtocolID::ProtocolARCParams => PROTOCOL_FUNCTION_ARC_BASE + 0,
            ProtocolID::ProtocolARCCmd => PROTOCOL_FUNCTION_ARC_BASE + 1,
            ProtocolID::ProtocolCircleCmd => PROTOCOL_FUNCTION_ARC_BASE + 2,
            ProtocolID::ProtocolARCCommonParams => PROTOCOL_FUNCTION_ARC_BASE + 3,
            ProtocolID::ProtocolWAITCmd => PROTOCOL_FUNCTION_WAIT_BASE + 0,
            ProtocolID::ProtocolTRIGCmd => PROTOCOL_FUNCTION_TRIG_BASE + 0,
            ProtocolID::ProtocolIOMultiplexing => PROTOCOL_FUNCTION_EIO_BASE + 0,
            ProtocolID::ProtocolIODO => PROTOCOL_FUNCTION_EIO_BASE + 1,
            ProtocolID::ProtocolIOPWM => PROTOCOL_FUNCTION_EIO_BASE + 2,
            ProtocolID::ProtocolIODI => PROTOCOL_FUNCTION_EIO_BASE + 3,
            ProtocolID::ProtocolIOADC => PROTOCOL_FUNCTION_EIO_BASE + 4,
            ProtocolID::ProtocolEMotor => PROTOCOL_FUNCTION_EIO_BASE + 5,
            ProtocolID::ProtocolEMotorS => PROTOCOL_FUNCTION_EIO_BASE + 6,
            ProtocolID::ProtocolColorSensor => PROTOCOL_FUNCTION_EIO_BASE + 7,
            ProtocolID::ProtocolIRSwitch => PROTOCOL_FUNCTION_EIO_BASE + 8,
            ProtocolID::ProtocolAngleSensorStaticError => PROTOCOL_FUNCTION_CAL_BASE + 0,
            ProtocolID::ProtocolAngleSensorCoef => PROTOCOL_FUNCTION_CAL_BASE + 1,
            ProtocolID::ProtocolBaseDecoderStaticError => PROTOCOL_FUNCTION_CAL_BASE + 2,
            ProtocolID::ProtocolLRHandCalibrateValue => PROTOCOL_FUNCTION_CAL_BASE + 3,
            ProtocolID::ProtocolWIFIConfigMode => PROTOCOL_FUNCTION_WIFI_BASE + 0,
            ProtocolID::ProtocolWIFISSID => PROTOCOL_FUNCTION_WIFI_BASE + 1,
            ProtocolID::ProtocolWIFIPassword => PROTOCOL_FUNCTION_WIFI_BASE + 2,
            ProtocolID::ProtocolWIFIIPAddress => PROTOCOL_FUNCTION_WIFI_BASE + 3,
            ProtocolID::ProtocolWIFINetmask => PROTOCOL_FUNCTION_WIFI_BASE + 4,
            ProtocolID::ProtocolWIFIGateway => PROTOCOL_FUNCTION_WIFI_BASE + 5,
            ProtocolID::ProtocolWIFIDNS => PROTOCOL_FUNCTION_WIFI_BASE + 6,
            ProtocolID::ProtocolWIFIConnectStatus => PROTOCOL_FUNCTION_WIFI_BASE + 7,
            ProtocolID::ProtocolFirmwareSwitch => PROTOCOL_FUNCTION_FIRMWARE_BASE + 0,
            ProtocolID::ProtocolFirmwareMode => PROTOCOL_FUNCTION_FIRMWARE_BASE + 1,
            ProtocolID::ProtocolLostStepSet => PROTOCOL_FUNCTION_LOST_STEP_BASE + 0,
            ProtocolID::ProtocolLostStepDetect => PROTOCOL_FUNCTION_LOST_STEP_BASE + 1,
            ProtocolID::ProtocolCheckUART4PeripheralsModel => PROTOCOL_FUNCTION_CHECK_MODEL_BASE + 1,
            ProtocolID::ProtocolUART4PeripheralsEnabled => PROTOCOL_FUNCTION_CHECK_MODEL_BASE + 2,
            ProtocolID::ProtocolFunctionPulseMode => PROTOCOL_FUNCTION_PULSE_MODE_BASE + 1,
            ProtocolID::ProtocolUserParams => PROTOCOL_TEST_BASE + 0,
            ProtocolID::ProtocolPTPTime => PROTOCOL_TEST_BASE + 1,
            ProtocolID::ProtocolServoPIDParams => PROTOCOL_TEST_BASE + 2,
            ProtocolID::ProtocolServoControlLoop => PROTOCOL_TEST_BASE + 3,
            ProtocolID::ProtocolSaveServoPIDParams => PROTOCOL_TEST_BASE + 4,
            ProtocolID::ProtocolQueuedCmdStartExec => PROTOCOL_FUNCTION_QUEUED_CMD_BASE + 0,
            ProtocolID::ProtocolQueuedCmdStopExec => PROTOCOL_FUNCTION_QUEUED_CMD_BASE + 1,
            ProtocolID::ProtocolQueuedCmdForceStopExec => PROTOCOL_FUNCTION_QUEUED_CMD_BASE + 2,
            ProtocolID::ProtocolQueuedCmdStartDownload => PROTOCOL_FUNCTION_QUEUED_CMD_BASE + 3,
            ProtocolID::ProtocolQueuedCmdStopDownload => PROTOCOL_FUNCTION_QUEUED_CMD_BASE + 4,
            ProtocolID::ProtocolQueuedCmdClear => PROTOCOL_FUNCTION_QUEUED_CMD_BASE + 5,
            ProtocolID::ProtocolQueuedCmdCurrentIndex => PROTOCOL_FUNCTION_QUEUED_CMD_BASE + 6,
            ProtocolID::ProtocolQueuedCmdLeftSpace => PROTOCOL_FUNCTION_QUEUED_CMD_BASE + 7,
        }
    }
}

} // verus!
