//! The stages, sides and actions of the editable pick-and-place sequences.
use vstd::prelude::*;

verus! {

/// A part of the sequence that the operator starts.
#[derive(Clone, Copy, Debug, PartialEq, Eq, Structural)]
pub enum Stage {
    Prepare,
    Pick,
    Transfer,
    All,
}

pub open spec fn stage_label(s: Stage) -> Seq<char> {
    match s {
        Stage::Prepare => "取得準備"@,
        Stage::Pick => "取得"@,
        Stage::Transfer => "搬送"@,
        Stage::All => "３操作を連続実行"@,
    }
}

impl Stage {
    /// Every stage, in the order shown to the operator.
    pub const ALL: [Stage; 4] = [Stage::Prepare, Stage::Pick, Stage::Transfer, Stage::All];

    /// The name shown to the operator.
    pub fn label(self) -> (l: &'static str)
        ensures
            l@ == stage_label(self),
    {
        match self {
            Stage::Prepare => "取得準備",
            Stage::Pick => "取得",
            Stage::Transfer => "搬送",
            Stage::All => "３操作を連続実行",
        }
    }
}

/// The side where a work piece is handed over.
#[derive(Clone, Copy, Debug, PartialEq, Eq, Structural)]
pub enum Side {
    Left,
    Right,
}

pub open spec fn side_label(s: Side) -> Seq<char> {
    match s {
        Side::Left => "左"@,
        Side::Right => "右"@,
    }
}

impl Side {
    /// The name shown to the operator.
    pub fn label(self) -> (l: &'static str)
        ensures
            l@ == side_label(self),
    {
        match self {
            Side::Left => "左",
            Side::Right => "右",
        }
    }
}

/// One motion that a sequence step can contain.
#[derive(Clone, Copy, Debug, PartialEq, Eq, Structural)]
pub enum Action {
    WorkPosition,
    WorkRotation,
    Unfold,
    Open,
    Approach,
    Descend,
    Close,
    Lift,
    TravelHeight,
    BonusPosition,
    Fold,
    BonusRotation,
    BonusHeight,
}

pub open spec fn action_label(a: Action) -> Seq<char> {
    match a {
        Action::WorkPosition => "ワーク上空へ移動"@,
        Action::WorkRotation => "取得向きへEE回転"@,
        Action::Unfold => "EE展開"@,
        Action::Open => "把持開"@,
        Action::Approach => "ワーク直上へ下降"@,
        Action::Descend => "把持高さへ下降"@,
        Action::Close => "把持閉"@,
        Action::Lift => "確認用に小上昇"@,
        Action::TravelHeight => "移動高さへ上昇"@,
        Action::BonusPosition => "ボーナス上空へ移動"@,
        Action::Fold => "EEたたみ"@,
        Action::BonusRotation => "受渡し向きへEE回転"@,
        Action::BonusHeight => "受渡し高さへ移動"@,
    }
}

impl Action {
    /// Every action, in the order shown to the operator.
    pub const ALL: [Action; 13] = [
        Action::WorkPosition,
        Action::WorkRotation,
        Action::Unfold,
        Action::Open,
        Action::Approach,
        Action::Descend,
        Action::Close,
        Action::Lift,
        Action::TravelHeight,
        Action::BonusPosition,
        Action::Fold,
        Action::BonusRotation,
        Action::BonusHeight,
    ];

    /// The name shown to the operator.
    pub fn label(self) -> (l: &'static str)
        ensures
            l@ == action_label(self),
    {
        match self {
            Action::WorkPosition => "ワーク上空へ移動",
            Action::WorkRotation => "取得向きへEE回転",
            Action::Unfold => "EE展開",
            Action::Open => "把持開",
            Action::Approach => "ワーク直上へ下降",
            Action::Descend => "把持高さへ下降",
            Action::Close => "把持閉",
            Action::Lift => "確認用に小上昇",
            Action::TravelHeight => "移動高さへ上昇",
            Action::BonusPosition => "ボーナス上空へ移動",
            Action::Fold => "EEたたみ",
            Action::BonusRotation => "受渡し向きへEE回転",
            Action::BonusHeight => "受渡し高さへ移動",
        }
    }
}

/// Which sequence to run: a pick group, a hand-over side and a stage.
#[derive(Clone, Copy, Debug, PartialEq, Eq, Structural)]
pub struct Start {
    pub group: usize,
    pub side: Side,
    pub stage: Stage,
}

} // verus!
