//! The actions a device's command-line menu offers.

use vstd::prelude::*;

verus! {

#[derive(Clone, Copy, Debug, PartialEq, Eq, Structural)]
pub enum ActionNum {
    DeviceList,
    FileSystem,
    FileTransfer,
    Exit,
    Undefined,
}

impl ActionNum {
    /// The menu's actions, in menu order.
    pub fn iter() -> (r: Vec<ActionNum>)
        ensures
            r@ == seq![
                ActionNum::DeviceList,
                ActionNum::FileSystem,
                ActionNum::FileTransfer,
                ActionNum::Exit,
            ],
    {
        let mut actions: Vec<ActionNum> = Vec::new();
        actions.push(ActionNum::DeviceList);
        actions.push(ActionNum::FileSystem);
        actions.push(ActionNum::FileTransfer);
        actions.push(ActionNum::Exit);
        proof {
            assert(actions@ =~= seq![
                ActionNum::DeviceList,
                ActionNum::FileSystem,
                ActionNum::FileTransfer,
                ActionNum::Exit,
            ]);
        }
        actions
    }

    /// The action a menu number selects; an unknown number selects none.
    pub fn from_num(value: i32) -> (r: ActionNum)
        ensures
            r == if value == 0 {
                ActionNum::DeviceList
            } else if value == 1 {
                ActionNum::FileSystem
            } else if value == 2 {
                ActionNum::FileTransfer
            } else if value == 3 {
                ActionNum::Exit
            } else {
                ActionNum::Undefined
            },
    {
        if value == 0 {
            ActionNum::DeviceList
        } else if value == 1 {
            ActionNum::FileSystem
        } else if value == 2 {
            ActionNum::FileTransfer
        } else if value == 3 {
            ActionNum::Exit
        } else {
            ActionNum::Undefined
        }
    }

    /// The number that selects this action in the menu.
    pub fn num(&self) -> (r: i32)
        ensures
            r == match self {
                ActionNum::DeviceList => 0i32,
                ActionNum::FileSystem => 1i32,
                ActionNum::FileTransfer => 2i32,
                ActionNum::Exit => 3i32,
                ActionNum::Undefined => 4i32,
            },
    {
        match self {
            ActionNum::DeviceList => 0,
            ActionNum::FileSystem => 1,
            ActionNum::FileTransfer => 2,
            ActionNum::Exit => 3,
            ActionNum::Undefined => 4,
        }
    }

    /// The action's menu label.
    pub fn label(&self) -> (r: &'static str)
        ensures
            match self {
                ActionNum::DeviceList => r@ == "DeviceList"@,
                ActionNum::FileSystem => r@ == "FileSystem"@,
                ActionNum::FileTransfer => r@ == "FileTransfer"@,
                ActionNum::Exit => r@ == "Exit"@,
                ActionNum::Undefined => r@ == "Undefined"@,
            },
    {
        match self {
            ActionNum::DeviceList => "DeviceList",
            ActionNum::FileSystem => "FileSystem",
            ActionNum::FileTransfer => "FileTransfer",
            ActionNum::Exit => "Exit",
            ActionNum::Undefined => "Undefined",
        }
    }
}

} // verus!
