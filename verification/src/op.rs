//! One operation on an open camera video node.

use vstd::prelude::*;

verus! {

/// One operation on an open video node, performed in order by the caller.
#[derive(Debug)]
pub enum Op {
    /// UVC extension-unit SET_CUR of a 60-byte buffer.
    XuSet { unit: u8, selector: u8, data: [u8; 60] },
    /// VIDIOC_S_CTRL of a standard V4L2 control.
    SetCtrl { id: u32, value: i32 },
    /// Wait before the next operation.
    Pause { millis: u64 },
}

/// The mathematical content of an [`Op`].
pub enum OpView {
    XuSet { unit: u8, selector: u8, data: Seq<u8> },
    SetCtrl { id: u32, value: i32 },
    Pause { millis: u64 },
}

impl View for Op {
    type V = OpView;

    open spec fn view(&self) -> OpView {
        match self {
            Op::XuSet { unit, selector, data } => OpView::XuSet {
                unit: *unit,
                selector: *selector,
                data: data@,
            },
            Op::SetCtrl { id, value } => OpView::SetCtrl { id: *id, value: *value },
            Op::Pause { millis } => OpView::Pause { millis: *millis },
        }
    }
}

/// The views of a list of operations.
pub open spec fn ops_view(ops: Seq<Op>) -> Seq<OpView> {
    ops.map_values(|o: Op| o@)
}

} // verus!
