//! The topics that the applications publish and subscribe to.

use vstd::prelude::*;
use crate::mqtt::mqtt_error::MqttError;

verus! {

/// A topic of the applications.
#[derive(Debug, Clone, Copy, PartialEq, Eq, Structural)]
pub enum AppsMqttTopics {
    /// `cam`: cameras that changed state.
    CameraTopic,
    /// `dron`: what each drone is doing.
    DronTopic,
    /// `inc`: incidents, new and resolved.
    IncidentTopic,
    /// `desc`: wills of the applications.
    DescTopic,
}

impl AppsMqttTopics {
    /// The name of the topic.
    pub open spec fn spec_to_bytes(self) -> Seq<u8> {
        match self {
            AppsMqttTopics::CameraTopic => seq![99u8, 97u8, 109u8],
            AppsMqttTopics::DronTopic => seq![100u8, 114u8, 111u8, 110u8],
            AppsMqttTopics::IncidentTopic => seq![105u8, 110u8, 99u8],
            AppsMqttTopics::DescTopic => seq![100u8, 101u8, 115u8, 99u8],
        }
    }

    /// The topic with this name, if it is the name of one.
    pub open spec fn spec_from_bytes(name: Seq<u8>) -> Option<AppsMqttTopics> {
        if name == AppsMqttTopics::CameraTopic.spec_to_bytes() {
            Some(AppsMqttTopics::CameraTopic)
        } else if name == AppsMqttTopics::DronTopic.spec_to_bytes() {
            Some(AppsMqttTopics::DronTopic)
        } else if name == AppsMqttTopics::IncidentTopic.spec_to_bytes() {
            Some(AppsMqttTopics::IncidentTopic)
        } else if name == AppsMqttTopics::DescTopic.spec_to_bytes() {
            Some(AppsMqttTopics::DescTopic)
        } else {
            None
        }
    }

    /// The number that stands for the topic in a key.
    pub open spec fn spec_code(self) -> u8 {
        match self {
            AppsMqttTopics::CameraTopic => 0,
            AppsMqttTopics::DronTopic => 1,
            AppsMqttTopics::IncidentTopic => 2,
            AppsMqttTopics::DescTopic => 3,
        }
    }

    /// The name of the topic, as text.
    pub fn to_str(&self) -> (name: &'static str)
        ensures
            name@ == (match self {
                AppsMqttTopics::CameraTopic => "cam"@,
                AppsMqttTopics::DronTopic => "dron"@,
                AppsMqttTopics::IncidentTopic => "inc"@,
                AppsMqttTopics::DescTopic => "desc"@,
            }),
    {
        match self {
            AppsMqttTopics::CameraTopic => "cam",
            AppsMqttTopics::DronTopic => "dron",
            AppsMqttTopics::IncidentTopic => "inc",
            AppsMqttTopics::DescTopic => "desc",
        }
    }

    /// The name of the topic, as it travels.
    pub fn to_bytes(&self) -> (name: Vec<u8>)
        ensures
            name@ == self.spec_to_bytes(),
    {
        let mut name: Vec<u8> = Vec::new();
        match self {
            AppsMqttTopics::CameraTopic => {
                name.push(99);
                name.push(97);
                name.push(109);
            },
            AppsMqttTopics::DronTopic => {
                name.push(100);
                name.push(114);
                name.push(111);
                name.push(110);
            },
            AppsMqttTopics::IncidentTopic => {
                name.push(105);
                name.push(110);
                name.push(99);
            },
            AppsMqttTopics::DescTopic => {
                name.push(100);
                name.push(101);
                name.push(115);
                name.push(99);
            },
        }
        assert(name@ =~= self.spec_to_bytes());
        name
    }

    /// The topic named `name`. A name of no topic of the applications is a
    /// protocol violation.
    pub fn topic_from_bytes(name: &Vec<u8>) -> (out: Result<AppsMqttTopics, MqttError>)
        ensures
            match out {
                Ok(topic) => Self::spec_from_bytes(name@) == Some(topic),
                Err(e) => e == MqttError::ProtocolViolation && Self::spec_from_bytes(name@)
                    is None,
            },
    {
        let n: usize = name.len();
        if n == 3 && name[0] == 99 && name[1] == 97 && name[2] == 109 {
            assert(name@ =~= AppsMqttTopics::CameraTopic.spec_to_bytes());
            Ok(AppsMqttTopics::CameraTopic)
        } else if n == 4 && name[0] == 100 && name[1] == 114 && name[2] == 111 && name[3] == 110 {
            assert(name@ =~= AppsMqttTopics::DronTopic.spec_to_bytes());
            Ok(AppsMqttTopics::DronTopic)
        } else if n == 3 && name[0] == 105 && name[1] == 110 && name[2] == 99 {
            assert(name@ =~= AppsMqttTopics::IncidentTopic.spec_to_bytes());
            Ok(AppsMqttTopics::IncidentTopic)
        } else if n == 4 && name[0] == 100 && name[1] == 101 && name[2] == 115 && name[3] == 99 {
            assert(name@ =~= AppsMqttTopics::DescTopic.spec_to_bytes());
            Ok(AppsMqttTopics::DescTopic)
        } else {
            Err(MqttError::ProtocolViolation)
        }
    }

    /// The number that stands for the topic in a key.
    pub fn code(&self) -> (code: u8)
        ensures
            code == self.spec_code(),
            code < 4,
    {
        match self {
            AppsMqttTopics::CameraTopic => 0,
            AppsMqttTopics::DronTopic => 1,
            AppsMqttTopics::IncidentTopic => 2,
            AppsMqttTopics::DescTopic => 3,
        }
    }
}

/// Every topic is found again from its name.
pub proof fn lemma_topic_name_round_trip(topic: AppsMqttTopics)
    ensures
        AppsMqttTopics::spec_from_bytes(topic.spec_to_bytes()) == Some(topic),
{
    let cam = AppsMqttTopics::CameraTopic.spec_to_bytes();
    let dron = AppsMqttTopics::DronTopic.spec_to_bytes();
    let inc = AppsMqttTopics::IncidentTopic.spec_to_bytes();
    let desc = AppsMqttTopics::DescTopic.spec_to_bytes();
    assert(cam.len() == 3 && inc.len() == 3 && dron.len() == 4 && desc.len() == 4);
    assert(cam[0] != inc[0]);
    assert(dron[1] != desc[1]);
}

} // verus!
