use vstd::prelude::*;

verus! {

/// The command_status values that the protocol defines.
#[allow(non_camel_case_types)]
#[derive(Clone, Copy, Debug, PartialEq, Eq)]
pub enum PduStatus {
    ESME_ROK,
    ESME_RINVMSGLEN,
    ESME_RINVCMDLEN,
    ESME_RINVCMDID,
    ESME_RINVBNDSTS,
    ESME_RALYBND,
    ESME_RINVPRTFLG,
    ESME_RINVREGDLVFLG,
    ESME_RSYSERR,
    ESME_RINVSRCADR,
    ESME_RINVDSTADR,
    ESME_RINVMSGID,
    ESME_RBINDFAIL,
    ESME_RINVPASWD,
    ESME_RINVSYSID,
    ESME_RCANCELFAIL,
    ESME_RREPLACEFAIL,
    ESME_RMSGQFUL,
    ESME_RINVSERTYP,
    ESME_RINVNUMDESTS,
    ESME_RINVDLNAME,
    ESME_RINVDESTFLAG,
    ESME_RINVSUBREP,
    ESME_RINVESMCLASS,
    ESME_RCNTSUBDL,
    ESME_RSUBMITFAIL,
    ESME_RINVSRCTON,
    ESME_RINVSRCNPI,
    ESME_RINVDSTTON,
    ESME_RINVDSTNPI,
    ESME_RINVSYSTYP,
    ESME_RINVREPFLAG,
    ESME_RINVNUMMSGS,
    ESME_RTHROTTLED,
    ESME_RINVSCHED,
    ESME_RINVEXPIRY,
    ESME_RINVDFTMSGID,
    ESME_RX_T_APPN,
    ESME_RX_P_APPN,
    ESME_RX_R_APPN,
    ESME_RQUERYFAIL,
    ESME_RINVOPTPARSTREAM,
    ESME_ROPTPARNOTALLWD,
    ESME_RINVPARLEN,
    ESME_RMISSINGOPTPARAM,
    ESME_RINVOPTPARAMVAL,
    ESME_RDELIVERYFAILURE,
    ESME_RUNKNOWNERR,
}

/// The command_status value of each status.
pub open spec fn status_code(s: PduStatus) -> u32 {
    match s {
        PduStatus::ESME_ROK => 0x00000000,
        PduStatus::ESME_RINVMSGLEN => 0x00000001,
        PduStatus::ESME_RINVCMDLEN => 0x00000002,
        PduStatus::ESME_RINVCMDID => 0x00000003,
        PduStatus::ESME_RINVBNDSTS => 0x00000004,
        PduStatus::ESME_RALYBND => 0x00000005,
        PduStatus::ESME_RINVPRTFLG => 0x00000006,
        PduStatus::ESME_RINVREGDLVFLG => 0x00000007,
        PduStatus::ESME_RSYSERR => 0x00000008,
        PduStatus::ESME_RINVSRCADR => 0x0000000A,
        PduStatus::ESME_RINVDSTADR => 0x0000000B,
        PduStatus::ESME_RINVMSGID => 0x0000000C,
        PduStatus::ESME_RBINDFAIL => 0x0000000D,
        PduStatus::ESME_RINVPASWD => 0x0000000E,
        PduStatus::ESME_RINVSYSID => 0x0000000F,
        PduStatus::ESME_RCANCELFAIL => 0x00000011,
        PduStatus::ESME_RREPLACEFAIL => 0x00000013,
        PduStatus::ESME_RMSGQFUL => 0x00000014,
        PduStatus::ESME_RINVSERTYP => 0x00000015,
        PduStatus::ESME_RINVNUMDESTS => 0x00000033,
        PduStatus::ESME_RINVDLNAME => 0x00000034,
        PduStatus::ESME_RINVDESTFLAG => 0x00000040,
        PduStatus::ESME_RINVSUBREP => 0x00000042,
        PduStatus::ESME_RINVESMCLASS => 0x00000043,
        PduStatus::ESME_RCNTSUBDL => 0x00000044,
        PduStatus::ESME_RSUBMITFAIL => 0x00000045,
        PduStatus::ESME_RINVSRCTON => 0x00000048,
        PduStatus::ESME_RINVSRCNPI => 0x00000049,
        PduStatus::ESME_RINVDSTTON => 0x00000050,
        PduStatus::ESME_RINVDSTNPI => 0x00000051,
        PduStatus::ESME_RINVSYSTYP => 0x00000053,
        PduStatus::ESME_RINVREPFLAG => 0x00000054,
        PduStatus::ESME_RINVNUMMSGS => 0x00000055,
        PduStatus::ESME_RTHROTTLED => 0x00000058,
        PduStatus::ESME_RINVSCHED => 0x00000061,
        PduStatus::ESME_RINVEXPIRY => 0x00000062,
        PduStatus::ESME_RINVDFTMSGID => 0x00000063,
        PduStatus::ESME_RX_T_APPN => 0x00000064,
        PduStatus::ESME_RX_P_APPN => 0x00000065,
        PduStatus::ESME_RX_R_APPN => 0x00000066,
        PduStatus::ESME_RQUERYFAIL => 0x00000067,
        PduStatus::ESME_RINVOPTPARSTREAM => 0x000000C0,
        PduStatus::ESME_ROPTPARNOTALLWD => 0x000000C1,
        PduStatus::ESME_RINVPARLEN => 0x000000C2,
        PduStatus::ESME_RMISSINGOPTPARAM => 0x000000C3,
        PduStatus::ESME_RINVOPTPARAMVAL => 0x000000C4,
        PduStatus::ESME_RDELIVERYFAILURE => 0x000000FE,
        PduStatus::ESME_RUNKNOWNERR => 0x000000FF,
    }
}

impl PduStatus {
    pub fn code(&self) -> (r: u32)
        ensures
            r == status_code(*self),
    {
        match self {
            PduStatus::ESME_ROK => 0x00000000,
            PduStatus::ESME_RINVMSGLEN => 0x00000001,
            PduStatus::ESME_RINVCMDLEN => 0x00000002,
            PduStatus::ESME_RINVCMDID => 0x00000003,
            PduStatus::ESME_RINVBNDSTS => 0x00000004,
            PduStatus::ESME_RALYBND => 0x00000005,
            PduStatus::ESME_RINVPRTFLG => 0x00000006,
            PduStatus::ESME_RINVREGDLVFLG => 0x00000007,
            PduStatus::ESME_RSYSERR => 0x00000008,
            PduStatus::ESME_RINVSRCADR => 0x0000000A,
            PduStatus::ESME_RINVDSTADR => 0x0000000B,
            PduStatus::ESME_RINVMSGID => 0x0000000C,
            PduStatus::ESME_RBINDFAIL => 0x0000000D,
            PduStatus::ESME_RINVPASWD => 0x0000000E,
            PduStatus::ESME_RINVSYSID => 0x0000000F,
            PduStatus::ESME_RCANCELFAIL => 0x00000011,
            PduStatus::ESME_RREPLACEFAIL => 0x00000013,
            PduStatus::ESME_RMSGQFUL => 0x00000014,
            PduStatus::ESME_RINVSERTYP => 0x00000015,
            PduStatus::ESME_RINVNUMDESTS => 0x00000033,
            PduStatus::ESME_RINVDLNAME => 0x00000034,
            PduStatus::ESME_RINVDESTFLAG => 0x00000040,
            PduStatus::ESME_RINVSUBREP => 0x00000042,
            PduStatus::ESME_RINVESMCLASS => 0x00000043,
            PduStatus::ESME_RCNTSUBDL => 0x00000044,
            PduStatus::ESME_RSUBMITFAIL => 0x00000045,
            PduStatus::ESME_RINVSRCTON => 0x00000048,
            PduStatus::ESME_RINVSRCNPI => 0x00000049,
            PduStatus::ESME_RINVDSTTON => 0x00000050,
            PduStatus::ESME_RINVDSTNPI => 0x00000051,
            PduStatus::ESME_RINVSYSTYP => 0x00000053,
            PduStatus::ESME_RINVREPFLAG => 0x00000054,
            PduStatus::ESME_RINVNUMMSGS => 0x00000055,
            PduStatus::ESME_RTHROTTLED => 0x00000058,
            PduStatus::ESME_RINVSCHED => 0x00000061,
            PduStatus::ESME_RINVEXPIRY => 0x00000062,
            PduStatus::ESME_RINVDFTMSGID => 0x00000063,
            PduStatus::ESME_RX_T_APPN => 0x00000064,
            PduStatus::ESME_RX_P_APPN => 0x00000065,
            PduStatus::ESME_RX_R_APPN => 0x00000066,
            PduStatus::ESME_RQUERYFAIL => 0x00000067,
            PduStatus::ESME_RINVOPTPARSTREAM => 0x000000C0,
            PduStatus::ESME_ROPTPARNOTALLWD => 0x000000C1,
            PduStatus::ESME_RINVPARLEN => 0x000000C2,
            PduStatus::ESME_RMISSINGOPTPARAM => 0x000000C3,
            PduStatus::ESME_RINVOPTPARAMVAL => 0x000000C4,
            PduStatus::ESME_RDELIVERYFAILURE => 0x000000FE,
            PduStatus::ESME_RUNKNOWNERR => 0x000000FF,
        }
    }
}

} // verus!
