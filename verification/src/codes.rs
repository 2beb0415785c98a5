//! The reserved transaction ids and the operation codes of the protocol.

use vstd::prelude::*;

verus! {

/// Transaction ids with a fixed meaning. Ordinary requests carry a positive id.
#[derive(Debug, Clone, Copy, PartialEq, Eq)]
pub enum XidCodes {
    ConnectXid,
    WatchXid,
    PingXid,
    AuthXid,
    SetWatchesXid,
}

/// The number that stands for each reserved transaction id on the wire.
pub open spec fn xid_value(x: XidCodes) -> int {
    match x {
        XidCodes::ConnectXid => 0,
        XidCodes::WatchXid => -1,
        XidCodes::PingXid => -2,
        XidCodes::AuthXid => -4,
        XidCodes::SetWatchesXid => -8,
    }
}

/// The reserved transaction id that `v` stands for, if any.
pub open spec fn spec_xid_from_i32(v: i32) -> Option<XidCodes> {
    if v == 0 {
        Some(XidCodes::ConnectXid)
    } else if v == -1 {
        Some(XidCodes::WatchXid)
    } else if v == -2 {
        Some(XidCodes::PingXid)
    } else if v == -4 {
        Some(XidCodes::AuthXid)
    } else if v == -8 {
        Some(XidCodes::SetWatchesXid)
    } else {
        None
    }
}

impl XidCodes {
    /// The reserved transaction id whose number is `v`, if any.
    pub fn from_i32(v: i32) -> (r: Option<XidCodes>)
        ensures
            r == spec_xid_from_i32(v),
            r matches Some(x) ==> xid_value(x) == v,
            // The protocol's reserved transaction ids.
            v == 0 ==> r == Some(XidCodes::ConnectXid),
            v == -1 ==> r == Some(XidCodes::WatchXid),
            v == -2 ==> r == Some(XidCodes::PingXid),
            v == -4 ==> r == Some(XidCodes::AuthXid),
            v == -8 ==> r == Some(XidCodes::SetWatchesXid),
            !(v == 0 || v == -1 || v == -2 || v == -4 || v == -8) ==> r is None,
    {
        if v == 0 {
            Some(XidCodes::ConnectXid)
        } else if v == -1 {
            Some(XidCodes::WatchXid)
        } else if v == -2 {
            Some(XidCodes::PingXid)
        } else if v == -4 {
            Some(XidCodes::AuthXid)
        } else if v == -8 {
            Some(XidCodes::SetWatchesXid)
        } else {
            None
        }
    }
}

/// The operations of the protocol, named by the opcode in a request header.
#[derive(Debug, Clone, Copy, PartialEq, Eq)]
pub enum OpCodes {
    Connect,
    Create,
    Delete,
    Exists,
    GetData,
    SetData,
    GetAcl,
    SetAcl,
    GetChildren,
    Sync,
    Ping,
    GetChildren2,
    Check,
    Multi,
    Create2,
    Reconfig,
    CheckWatches,
    RemoveWatches,
    CreateContainer,
    CreateTtl,
    Close,
    SetAuth,
    SetWatches,
    GetEphemerals,
    GetAllChildrenNumber,
    SetWatches2,
}

/// The number that stands for each operation on the wire.
pub open spec fn opcode_value(op: OpCodes) -> int {
    match op {
        OpCodes::Connect => -10,
        OpCodes::Create => 1,
        OpCodes::Delete => 2,
        OpCodes::Exists => 3,
        OpCodes::GetData => 4,
        OpCodes::SetData => 5,
        OpCodes::GetAcl => 6,
        OpCodes::SetAcl => 7,
        OpCodes::GetChildren => 8,
        OpCodes::Sync => 9,
        OpCodes::Ping => 11,
        OpCodes::GetChildren2 => 12,
        OpCodes::Check => 13,
        OpCodes::Multi => 14,
        OpCodes::Create2 => 15,
        OpCodes::Reconfig => 16,
        OpCodes::CheckWatches => 17,
        OpCodes::RemoveWatches => 18,
        OpCodes::CreateContainer => 19,
        OpCodes::CreateTtl => 21,
        OpCodes::Close => -11,
        OpCodes::SetAuth => 100,
        OpCodes::SetWatches => 101,
        OpCodes::GetEphemerals => 103,
        OpCodes::GetAllChildrenNumber => 104,
        OpCodes::SetWatches2 => 105,
    }
}

/// The operation whose number is `v`, if any.
pub open spec fn spec_opcode_from_i32(v: i32) -> Option<OpCodes> {
    if exists|op: OpCodes| opcode_value(op) == v {
        Some(choose|op: OpCodes| opcode_value(op) == v)
    } else {
        None
    }
}

/// Distinct operations have distinct numbers.
pub proof fn lemma_opcode_value_injective(a: OpCodes, b: OpCodes)
    ensures
        opcode_value(a) == opcode_value(b) ==> a == b,
{
}

impl OpCodes {
    /// The operation whose number is `v`, if any.
    pub fn from_i32(v: i32) -> (r: Option<OpCodes>)
        ensures
            r == spec_opcode_from_i32(v),
            r matches Some(op) ==> opcode_value(op) == v,
            r is None ==> forall|op: OpCodes| opcode_value(op) != v,
            // The protocol's table of operation numbers.
            v == -10 ==> r == Some(OpCodes::Connect),
            v == 1 ==> r == Some(OpCodes::Create),
            v == 2 ==> r == Some(OpCodes::Delete),
            v == 3 ==> r == Some(OpCodes::Exists),
            v == 4 ==> r == Some(OpCodes::GetData),
            v == 5 ==> r == Some(OpCodes::SetData),
            v == 6 ==> r == Some(OpCodes::GetAcl),
            v == 7 ==> r == Some(OpCodes::SetAcl),
            v == 8 ==> r == Some(OpCodes::GetChildren),
            v == 9 ==> r == Some(OpCodes::Sync),
            v == 11 ==> r == Some(OpCodes::Ping),
            v == 12 ==> r == Some(OpCodes::GetChildren2),
            v == 13 ==> r == Some(OpCodes::Check),
            v == 14 ==> r == Some(OpCodes::Multi),
            v == 15 ==> r == Some(OpCodes::Create2),
            v == 16 ==> r == Some(OpCodes::Reconfig),
            v == 17 ==> r == Some(OpCodes::CheckWatches),
            v == 18 ==> r == Some(OpCodes::RemoveWatches),
            v == 19 ==> r == Some(OpCodes::CreateContainer),
            v == 21 ==> r == Some(OpCodes::CreateTtl),
            v == -11 ==> r == Some(OpCodes::Close),
            v == 100 ==> r == Some(OpCodes::SetAuth),
            v == 101 ==> r == Some(OpCodes::SetWatches),
            v == 103 ==> r == Some(OpCodes::GetEphemerals),
            v == 104 ==> r == Some(OpCodes::GetAllChildrenNumber),
            v == 105 ==> r == Some(OpCodes::SetWatches2),
            !(v == -10 || v == 1 || v == 2 || v == 3 || v == 4 || v == 5 || v == 6 ||
                v == 7 || v == 8 || v == 9 || v == 11 || v == 12 || v == 13 || v == 14 ||
                v == 15 || v == 16 || v == 17 || v == 18 || v == 19 || v == 21 || v == -11 ||
                v == 100 || v == 101 || v == 103 || v == 104 || v == 105) ==> r is None,
    {
        let r = if v == -10 {
            Some(OpCodes::Connect)
        } else if v == 1 {
            Some(OpCodes::Create)
        } else if v == 2 {
            Some(OpCodes::Delete)
        } else if v == 3 {
            Some(OpCodes::Exists)
        } else if v == 4 {
            Some(OpCodes::GetData)
        } else if v == 5 {
            Some(OpCodes::SetData)
        } else if v == 6 {
            Some(OpCodes::GetAcl)
        } else if v == 7 {
            Some(OpCodes::SetAcl)
        } else if v == 8 {
            Some(OpCodes::GetChildren)
        } else if v == 9 {
            Some(OpCodes::Sync)
        } else if v == 11 {
            Some(OpCodes::Ping)
        } else if v == 12 {
            Some(OpCodes::GetChildren2)
        } else if v == 13 {
            Some(OpCodes::Check)
        } else if v == 14 {
            Some(OpCodes::Multi)
        } else if v == 15 {
            Some(OpCodes::Create2)
        } else if v == 16 {
            Some(OpCodes::Reconfig)
        } else if v == 17 {
            Some(OpCodes::CheckWatches)
        } else if v == 18 {
            Some(OpCodes::RemoveWatches)
        } else if v == 19 {
            Some(OpCodes::CreateContainer)
        } else if v == 21 {
            Some(OpCodes::CreateTtl)
        } else if v == -11 {
            Some(OpCodes::Close)
        } else if v == 100 {
            Some(OpCodes::SetAuth)
        } else if v == 101 {
            Some(OpCodes::SetWatches)
        } else if v == 103 {
            Some(OpCodes::GetEphemerals)
        } else if v == 104 {
            Some(OpCodes::GetAllChildrenNumber)
        } else if v == 105 {
            Some(OpCodes::SetWatches2)
        } else {
            None
        };
        proof {
            match r {
                Some(op) => {
                    assert(opcode_value(op) == v);
                    assert forall|o: OpCodes| opcode_value(o) == v implies o == op by {
                        lemma_opcode_value_injective(o, op);
                    }
                },
                None => {
                    assert forall|o: OpCodes| opcode_value(o) != v by {
                        match o {
                            _ => {},
                        }
                    }
                },
            }
        }
        r
    }
}

} // verus!
