//! Objects that their own bytes give back.

use crate::blf::app::{
    has_no_outer_nul, AppTextManaged, RestorePointContainerManaged, SysVariableManaged,
};
use crate::blf::bytes::{
    le_u16, le_u32, le_u64, lemma_le_u16_len, lemma_le_u32_len,
    lemma_le_u64_len, lemma_part, lemma_starts_with_self, low16, low32, u32_at, unsigned16,
};
use crate::blf::can_ext::{resized, CanErrorExt, CanFdError64, CanFdManaged, CanSettingChanged};
use crate::blf::ethernet::{
    EthernetFrame, EthernetFrameEx, EthernetRxError, EthernetStatistic, EthernetStatus,
};
use crate::blf::general::{
    AppTrigger, AttributeEvent, DataLostBegin, DataLostEnd, DiagRequestInterpretation,
    DistributedObjectMember, DriverOverrun, EnvironmentVariable, EventComment, FunctionBus,
    GlobalMarker, GpsEvent, RealtimeClock, TriggerCondition, WaterMarkEvent,
};
use crate::blf::lin::{LinMessage, LinMessage2};
use crate::blf::header::LObj;
use crate::blf::object::BlfObject;
use crate::blf::object_type::ObjectType;
use crate::text::{decoded_text, drop_nul, skip_nul, trimmed_nul};
use vstd::prelude::*;

verus! {

/// Whether a header that objects with decoded fields have is that of an object that takes all
/// the bytes.
spec fn given_back(header: LObj, s: Seq<u8>) -> bool {
    &&& header.plain()
    &&& header.base.object_size == s.len()
}

proof fn lemma_outer_nul(s: Seq<char>, from: int, to: int)
    requires
        0 <= from <= to <= s.len(),
    ensures
        from <= skip_nul(s, from) <= s.len(),
        skip_nul(s, from) < s.len() ==> s[skip_nul(s, from)] != '\0',
        from <= drop_nul(s, from, to) <= to,
        from < drop_nul(s, from, to) ==> s[drop_nul(s, from, to) - 1] != '\0',
    decreases s.len() - from, to,
{
    if from < s.len() && s[from] == '\0' {
        lemma_outer_nul(s, from + 1, s.len() as int);
    }
    if from < to && s[to - 1] == '\0' {
        lemma_outer_nul(s, from, to - 1);
    }
}

/// A text without the NUL characters at its ends has none there.
proof fn lemma_trimmed_outer(s: Seq<char>)
    ensures
        has_no_outer_nul(trimmed_nul(s)),
{
    lemma_outer_nul(s, 0, s.len() as int);
    let from = skip_nul(s, 0);
    lemma_outer_nul(s, from, s.len() as int);
}

proof fn lemma_app_trigger(o: AppTrigger)
    requires
        given_back(o.header, o.encoding()),
        AppTrigger::failure(o.encoding(), 0) is None,
        o.reads(o.encoding()),
    ensures
        o.canonical(),
{
    reveal(le_u16);
    reveal(le_u32);
    reveal(le_u64);
    o.header.law_read_of_write(Seq::empty(), 0);
}

proof fn lemma_environment_variable(o: EnvironmentVariable)
    requires
        given_back(o.header, o.encoding()),
        EnvironmentVariable::failure(o.encoding(), 0) is None,
        o.reads(o.encoding()),
    ensures
        o.canonical(),
{
    let s = o.encoding();
    o.header.law_read_of_write(Seq::empty(), 0);
}

proof fn lemma_realtime_clock(o: RealtimeClock)
    requires
        given_back(o.header, o.encoding()),
        RealtimeClock::failure(o.encoding(), 0) is None,
        o.reads(o.encoding()),
    ensures
        o.canonical(),
{
    reveal(le_u16);
    reveal(le_u32);
    reveal(le_u64);
    o.header.law_read_of_write(Seq::empty(), 0);
}

proof fn lemma_driver_overrun(o: DriverOverrun)
    requires
        given_back(o.header, o.encoding()),
        DriverOverrun::failure(o.encoding(), 0) is None,
        o.reads(o.encoding()),
    ensures
        o.canonical(),
{
    reveal(le_u16);
    reveal(le_u32);
    reveal(le_u64);
    o.header.law_read_of_write(Seq::empty(), 0);
}

proof fn lemma_event_comment(o: EventComment)
    requires
        given_back(o.header, o.encoding()),
        EventComment::failure(o.encoding(), 0) is None,
        o.reads(o.encoding()),
    ensures
        o.canonical(),
{
    let s = o.encoding();
    o.header.law_read_of_write(Seq::empty(), 0);
}

proof fn lemma_global_marker(o: GlobalMarker)
    requires
        given_back(o.header, o.encoding()),
        GlobalMarker::failure(o.encoding(), 0) is None,
        o.reads(o.encoding()),
    ensures
        o.canonical(),
{
    let s = o.encoding();
    o.header.law_read_of_write(Seq::empty(), 0);
}

proof fn lemma_gps_event(o: GpsEvent)
    requires
        given_back(o.header, o.encoding()),
        GpsEvent::failure(o.encoding(), 0) is None,
        o.reads(o.encoding()),
    ensures
        o.canonical(),
{
    reveal(le_u16);
    reveal(le_u32);
    reveal(le_u64);
    o.header.law_read_of_write(Seq::empty(), 0);
}

proof fn lemma_data_lost_begin(o: DataLostBegin)
    requires
        given_back(o.header, o.encoding()),
        DataLostBegin::failure(o.encoding(), 0) is None,
        o.reads(o.encoding()),
    ensures
        o.canonical(),
{
    reveal(le_u16);
    reveal(le_u32);
    reveal(le_u64);
    o.header.law_read_of_write(Seq::empty(), 0);
}

proof fn lemma_data_lost_end(o: DataLostEnd)
    requires
        given_back(o.header, o.encoding()),
        DataLostEnd::failure(o.encoding(), 0) is None,
        o.reads(o.encoding()),
    ensures
        o.canonical(),
{
    reveal(le_u16);
    reveal(le_u32);
    reveal(le_u64);
    o.header.law_read_of_write(Seq::empty(), 0);
}

proof fn lemma_water_mark_event(o: WaterMarkEvent)
    requires
        given_back(o.header, o.encoding()),
        WaterMarkEvent::failure(o.encoding(), 0) is None,
        o.reads(o.encoding()),
    ensures
        o.canonical(),
{
    reveal(le_u16);
    reveal(le_u32);
    reveal(le_u64);
    o.header.law_read_of_write(Seq::empty(), 0);
}

proof fn lemma_trigger_condition(o: TriggerCondition)
    requires
        given_back(o.header, o.encoding()),
        TriggerCondition::failure(o.encoding(), 0) is None,
        o.reads(o.encoding()),
    ensures
        o.canonical(),
{
    let s = o.encoding();
    o.header.law_read_of_write(Seq::empty(), 0);
}

proof fn lemma_distributed_object_member(o: DistributedObjectMember)
    requires
        given_back(o.header, o.encoding()),
        DistributedObjectMember::failure(o.encoding(), 0) is None,
        o.reads(o.encoding()),
    ensures
        o.canonical(),
{
    let s = o.encoding();
    o.header.law_read_of_write(Seq::empty(), 0);
}

proof fn lemma_attribute_event(o: AttributeEvent)
    requires
        given_back(o.header, o.encoding()),
        AttributeEvent::failure(o.encoding(), 0) is None,
        o.reads(o.encoding()),
    ensures
        o.canonical(),
{
    let s = o.encoding();
    o.header.law_read_of_write(Seq::empty(), 0);
}

proof fn lemma_function_bus(o: FunctionBus)
    requires
        given_back(o.header, o.encoding()),
        FunctionBus::failure(o.encoding(), 0) is None,
        o.reads(o.encoding()),
    ensures
        o.canonical(),
{
    let s = o.encoding();
    o.header.law_read_of_write(Seq::empty(), 0);
}

proof fn lemma_diag_request_interpretation(o: DiagRequestInterpretation)
    requires
        given_back(o.header, o.encoding()),
        DiagRequestInterpretation::failure(o.encoding(), 0) is None,
        o.reads(o.encoding()),
    ensures
        o.canonical(),
{
    let s = o.encoding();
    o.header.law_read_of_write(Seq::empty(), 0);
}

proof fn lemma_ethernet_frame(o: EthernetFrame)
    requires
        given_back(o.header, o.encoding()),
        EthernetFrame::failure(o.encoding(), 0) is None,
        o.reads(o.encoding()),
    ensures
        o.canonical(),
{
    let s = o.encoding();
    o.header.law_read_of_write(Seq::empty(), 0);
}

proof fn lemma_ethernet_rx_error(o: EthernetRxError)
    requires
        given_back(o.header, o.encoding()),
        EthernetRxError::failure(o.encoding(), 0) is None,
        o.reads(o.encoding()),
    ensures
        o.canonical(),
{
    let s = o.encoding();
    o.header.law_read_of_write(Seq::empty(), 0);
}

proof fn lemma_ethernet_status(o: EthernetStatus)
    requires
        given_back(o.header, o.encoding()),
        EthernetStatus::failure(o.encoding(), 0) is None,
        o.reads(o.encoding()),
    ensures
        o.canonical(),
{
    let s = o.encoding();
    o.header.law_read_of_write(Seq::empty(), 0);
}

proof fn lemma_ethernet_statistic(o: EthernetStatistic)
    requires
        given_back(o.header, o.encoding()),
        EthernetStatistic::failure(o.encoding(), 0) is None,
        o.reads(o.encoding()),
    ensures
        o.canonical(),
{
    o.header.law_read_of_write(Seq::empty(), 0);
    lemma_le_u16_len(o.channel);
    lemma_le_u16_len(o.reserved1);
    lemma_le_u32_len(o.reserved2);
    lemma_le_u64_len(o.receive_ok);
    lemma_le_u64_len(o.transmit_ok);
    lemma_le_u64_len(o.receive_error);
    lemma_le_u64_len(o.transmit_error);
    lemma_le_u64_len(o.receive_bytes);
    lemma_le_u64_len(o.transmit_bytes);
    lemma_le_u64_len(o.receive_no_buffer);
    lemma_le_u16_len(unsigned16(o.sqi));
    lemma_le_u16_len(o.hardware_channel);
    lemma_le_u32_len(o.reserved3);
}

proof fn lemma_ethernet_frame_ex(o: EthernetFrameEx)
    requires
        given_back(o.header, o.encoding()),
        EthernetFrameEx::failure(o.encoding(), 0) is None,
        o.reads(o.encoding()),
    ensures
        o.canonical(),
{
    let s = o.encoding();
    o.header.law_read_of_write(Seq::empty(), 0);
}

proof fn lemma_lin_message(o: LinMessage)
    requires
        given_back(o.header, o.encoding()),
        LinMessage::failure(o.encoding(), 0) is None,
        o.reads(o.encoding()),
    ensures
        o.canonical(),
{
    let s = o.encoding();
    o.header.law_read_of_write(Seq::empty(), 0);
}

proof fn lemma_lin_message2(o: LinMessage2)
    requires
        given_back(o.header, o.encoding()),
        LinMessage2::failure(o.encoding(), 0) is None,
        o.reads(o.encoding()),
    ensures
        o.canonical(),
{
    let s = o.encoding();
    o.header.law_read_of_write(Seq::empty(), 0);
}

proof fn lemma_can_error_ext(o: CanErrorExt)
    requires
        given_back(o.header, o.encoding()),
        CanErrorExt::failure(o.encoding(), 0) is None,
        o.reads(o.encoding()),
    ensures
        o.canonical(),
{
    let s = o.encoding();
    o.header.law_read_of_write(Seq::empty(), 0);
}

proof fn lemma_can_fd_managed(o: CanFdManaged)
    requires
        given_back(o.header, o.encoding()),
        CanFdManaged::failure(o.encoding(), 0) is None,
        o.reads(o.encoding()),
    ensures
        o.canonical(),
{
    let s = o.encoding();
    let c = o.fixed().encoding();
    o.fixed().law_read_of_write(0);
    assert(s[67] == c[67]);
    let start = 72 + s[34];
    assert(s.len() == c.len() + o.data@.len() + o.ext_data@.len());
    lemma_part(s, start, s.len() as int, 0);
    lemma_part(s, start, s.len() as int, 4);
}

proof fn lemma_can_fd_error64(o: CanFdError64)
    requires
        given_back(o.header, o.encoding()),
        CanFdError64::failure(o.encoding(), 0) is None,
        o.reads(o.encoding()),
    ensures
        o.canonical(),
{
    let s = o.encoding();
    o.header.law_read_of_write(Seq::empty(), 0);
}

proof fn lemma_can_setting_changed(o: CanSettingChanged)
    requires
        given_back(o.header, o.encoding()),
        CanSettingChanged::failure(o.encoding(), 0) is None,
        o.reads(o.encoding()),
    ensures
        o.canonical(),
{
    let s = o.encoding();
    o.header.law_read_of_write(Seq::empty(), 0);
}

proof fn lemma_app_text_managed(o: AppTextManaged)
    requires
        given_back(o.header, o.encoding()),
        AppTextManaged::failure(o.encoding(), 0) is None,
        o.reads(o.encoding()),
    ensures
        o.canonical(),
{
    let s = o.encoding();
    o.fixed().law_read_of_write(0);
    assert(s.len() == 48 + o.text_bytes().len());
    lemma_trimmed_outer(decoded_text(s.subrange(48, 48 + u32_at(s, 40))));
}

proof fn lemma_sys_variable_managed(o: SysVariableManaged)
    requires
        given_back(o.header, o.encoding()),
        SysVariableManaged::failure(o.encoding(), 0) is None,
        o.reads(o.encoding()),
    ensures
        o.canonical(),
{
    let s = o.encoding();
    let c = o.fixed().encoding();
    lemma_starts_with_self(c);
    o.fixed().law_read_of_prefix(c, 0);
    assert(s.len() == 64 + o.name_bytes().len() + o.data@.len());
    lemma_trimmed_outer(decoded_text(s.subrange(64, 64 + u32_at(s, 48))));
}

proof fn lemma_restore_point_container_managed(o: RestorePointContainerManaged)
    requires
        given_back(o.header, o.encoding()),
        RestorePointContainerManaged::failure(o.encoding(), 0) is None,
        o.reads(o.encoding()),
    ensures
        o.canonical(),
{
    let s = o.encoding();
    reveal(le_u16);
    let h = resized(o.header, low32(o.total()));
    h.law_read_of_write(Seq::empty(), 0);
    assert(s == h.encoding() + o.reserved@ + le_u16(low16(o.data@.len() as int)) + o.data@);
    assert(s.len() == 48 + o.data@.len());
}

impl BlfObject {
    /// Whether the object is written, and reading its bytes gives it back.
    pub open spec fn gives_back(self) -> bool {
        &&& self.write_failure() is None
        &&& Self::failure(self.encoding(), 0) is None
        &&& self.reads(self.encoding(), 0)
        &&& self.head().valid()
    }

    /// What holds of the bytes of an object with decoded fields that they give back.
    proof fn lemma_decoded(self) -> (t: ObjectType)
        requires
            self.gives_back(),
            self.payload() is None,
        ensures
            ObjectType::of_raw(self.head().base.object_type) == Some(t),
            self.typed_reads(t, self.encoding()),
            Self::typed_failure(t, self.encoding(), 0) is None,
            given_back(self.head(), self.encoding()),
            self.head().base.object_size >= 32,
    {
        reveal(BlfObject::failure);
        reveal(BlfObject::reads);
        let s = self.encoding();
        assert(s.subrange(0, s.len() as int) =~= s);
        let t = ObjectType::of_raw(u32_at(s, 12))->Some_0;
        self.lemma_head_reads(t);
        t
    }

    proof fn lemma_head_reads(self, t: ObjectType)
        requires
            self.typed_reads(t, self.encoding()),
        ensures
            self.head().reads(self.encoding()),
    {
    }

    #[verifier::spinoff_prover]
    proof fn lemma_canonical_0(self, t: ObjectType)
        requires
            ObjectType::of_raw(self.head().base.object_type) == Some(t),
            self.typed_reads(t, self.encoding()),
            Self::typed_failure(t, self.encoding(), 0) is None,
            given_back(self.head(), self.encoding()),
            self.head().base.object_size >= 32,
            self.is_of_group_0(),
        ensures
            self.canonical(),
    {
        match self {
            BlfObject::AppTrigger(o) => lemma_app_trigger(o),
            BlfObject::EnvironmentVariable(o) => lemma_environment_variable(o),
            BlfObject::RealtimeClock(o) => lemma_realtime_clock(o),
            BlfObject::DriverOverrun(o) => lemma_driver_overrun(o),
            BlfObject::EventComment(o) => lemma_event_comment(o),
            BlfObject::GlobalMarker(o) => lemma_global_marker(o),
            BlfObject::GpsEvent(o) => lemma_gps_event(o),
            _ => {},
        }
    }

    #[verifier::spinoff_prover]
    proof fn lemma_canonical_1(self, t: ObjectType)
        requires
            ObjectType::of_raw(self.head().base.object_type) == Some(t),
            self.typed_reads(t, self.encoding()),
            Self::typed_failure(t, self.encoding(), 0) is None,
            given_back(self.head(), self.encoding()),
            self.head().base.object_size >= 32,
            self.is_of_group_1(),
        ensures
            self.canonical(),
    {
        match self {
            BlfObject::DataLostBegin(o) => lemma_data_lost_begin(o),
            BlfObject::DataLostEnd(o) => lemma_data_lost_end(o),
            BlfObject::WaterMarkEvent(o) => lemma_water_mark_event(o),
            BlfObject::TriggerCondition(o) => lemma_trigger_condition(o),
            BlfObject::DistributedObjectMember(o) => lemma_distributed_object_member(o),
            BlfObject::AttributeEvent(o) => lemma_attribute_event(o),
            BlfObject::FunctionBus(o) => lemma_function_bus(o),
            _ => {},
        }
    }

    #[verifier::spinoff_prover]
    proof fn lemma_canonical_2(self, t: ObjectType)
        requires
            ObjectType::of_raw(self.head().base.object_type) == Some(t),
            self.typed_reads(t, self.encoding()),
            Self::typed_failure(t, self.encoding(), 0) is None,
            given_back(self.head(), self.encoding()),
            self.head().base.object_size >= 32,
            self.is_of_group_2(),
        ensures
            self.canonical(),
    {
        match self {
            BlfObject::DiagRequestInterpretation(o) => lemma_diag_request_interpretation(o),
            BlfObject::EthernetFrame(o) => lemma_ethernet_frame(o),
            BlfObject::EthernetRxError(o) => lemma_ethernet_rx_error(o),
            BlfObject::EthernetStatus(o) => lemma_ethernet_status(o),
            BlfObject::EthernetStatistic(o) => lemma_ethernet_statistic(o),
            BlfObject::EthernetFrameEx(o) => lemma_ethernet_frame_ex(o),
            BlfObject::LinMessage(o) => lemma_lin_message(o),
            _ => {},
        }
    }

    #[verifier::spinoff_prover]
    proof fn lemma_canonical_3(self, t: ObjectType)
        requires
            ObjectType::of_raw(self.head().base.object_type) == Some(t),
            self.typed_reads(t, self.encoding()),
            Self::typed_failure(t, self.encoding(), 0) is None,
            given_back(self.head(), self.encoding()),
            self.head().base.object_size >= 32,
            self.is_of_group_3(),
        ensures
            self.canonical(),
    {
        match self {
            BlfObject::LinMessage2(o) => lemma_lin_message2(o),
            BlfObject::CanMessage(_) => {},
            BlfObject::CanMessage2(_) => {},
            BlfObject::CanError(_) => {},
            BlfObject::CanErrorExt(o) => lemma_can_error_ext(o),
            BlfObject::CanOverload(_) => {},
            BlfObject::CanFdMessage(_) => {},
            _ => {},
        }
    }

    #[verifier::spinoff_prover]
    proof fn lemma_canonical_4(self, t: ObjectType)
        requires
            ObjectType::of_raw(self.head().base.object_type) == Some(t),
            self.typed_reads(t, self.encoding()),
            Self::typed_failure(t, self.encoding(), 0) is None,
            given_back(self.head(), self.encoding()),
            self.head().base.object_size >= 32,
            self.is_of_group_4(),
        ensures
            self.canonical(),
    {
        match self {
            BlfObject::CanFdMessage64(o) => lemma_can_fd_managed(o),
            BlfObject::CanFdError64(o) => lemma_can_fd_error64(o),
            BlfObject::CanStatistic(_) => {},
            BlfObject::CanDriverError(_) => {},
            BlfObject::CanDriverSync(_) => {},
            BlfObject::CanDriverErrorExt(_) => {},
            BlfObject::CanSettingChanged(o) => lemma_can_setting_changed(o),
            _ => {},
        }
    }

    #[verifier::spinoff_prover]
    proof fn lemma_canonical_5(self, t: ObjectType)
        requires
            ObjectType::of_raw(self.head().base.object_type) == Some(t),
            self.typed_reads(t, self.encoding()),
            Self::typed_failure(t, self.encoding(), 0) is None,
            given_back(self.head(), self.encoding()),
            self.head().base.object_size >= 32,
            self.is_of_group_5(),
        ensures
            self.canonical(),
    {
        match self {
            BlfObject::AppText(o) => lemma_app_text_managed(o),
            BlfObject::SysVariable(o) => lemma_sys_variable_managed(o),
            BlfObject::RestorePointContainer(o) => lemma_restore_point_container_managed(o),
            _ => {},
        }
    }

    /// An object that its own bytes give back is canonical.
    pub proof fn law_canonical_of_given_back(self)
        requires
            self.gives_back(),
        ensures
            self.canonical(),
    {
        if self.payload() is None {
            let t = self.lemma_decoded();
            if self.is_of_group_0() {
                self.lemma_canonical_0(t);
            } else if self.is_of_group_1() {
                self.lemma_canonical_1(t);
            } else if self.is_of_group_2() {
                self.lemma_canonical_2(t);
            } else if self.is_of_group_3() {
                self.lemma_canonical_3(t);
            } else if self.is_of_group_4() {
                self.lemma_canonical_4(t);
            } else if self.is_of_group_5() {
                self.lemma_canonical_5(t);
            }
        } else {
            reveal(BlfObject::failure);
            reveal(BlfObject::reads);
            let s = self.encoding();
            assert(s.subrange(0, s.len() as int) =~= s);
        }
    }

    /// A canonical object is one that its own bytes give back.
    pub proof fn law_given_back_of_canonical(self)
        requires
            self.canonical(),
        ensures
            self.gives_back(),
    {
        self.law_read_of_write(0);
    }
}

} // verus!
