use vstd::prelude::*;

verus! {

#[derive(Clone, Copy, Debug, PartialEq, Eq, Structural, PartialOrd, Ord)]
pub enum HealthLevel {
    Healthy,
    Degraded,
    Reconnecting,
    Error,
}

/// How bad a health level is, from 0 (healthy) to 3 (error).
pub open spec fn severity(level: HealthLevel) -> int {
    match level {
        HealthLevel::Healthy => 0,
        HealthLevel::Degraded => 1,
        HealthLevel::Reconnecting => 2,
        HealthLevel::Error => 3,
    }
}

impl HealthLevel {
    fn severity(self) -> (value: u8)
        ensures
            value == severity(self),
    {
        match self {
            HealthLevel::Healthy => 0,
            HealthLevel::Degraded => 1,
            HealthLevel::Reconnecting => 2,
            HealthLevel::Error => 3,
        }
    }
}

#[derive(Clone, Copy, Debug, PartialEq, Eq, Structural)]
pub struct HealthComponent {
    pub level: HealthLevel,
    pub required: bool,
}

impl HealthComponent {
    pub fn required(level: HealthLevel) -> (component: Self)
        ensures
            component.level == level,
            component.required,
    {
        HealthComponent { level, required: true }
    }

    pub fn optional(level: HealthLevel) -> (component: Self)
        ensures
            component.level == level,
            !component.required,
    {
        HealthComponent { level, required: false }
    }
}

/// Orthogonal health components. `None` means the component is not applicable/known.
#[derive(Clone, Copy, Debug, PartialEq, Eq, Structural)]
pub struct NodeHealth {
    pub adapter: Option<HealthComponent>,
    pub runtime_prerequisites: Option<HealthComponent>,
    pub membership: Option<HealthComponent>,
    pub links: Option<HealthComponent>,
    pub topology: Option<HealthComponent>,
    pub gateway: Option<HealthComponent>,
}

/// What one component contributes to node health: an optional feature that has failed only
/// degrades the node; anything else contributes its own level; an absent component nothing.
pub open spec fn contribution(component: Option<HealthComponent>) -> HealthLevel {
    match component {
        None => HealthLevel::Healthy,
        Some(c) => if !c.required && c.level == HealthLevel::Error {
            HealthLevel::Degraded
        } else {
            c.level
        },
    }
}

/// A required component that reports an error.
pub open spec fn failed_required(component: Option<HealthComponent>) -> bool {
    match component {
        Some(c) => c.required && c.level == HealthLevel::Error,
        None => false,
    }
}

/// The more severe of two levels.
pub open spec fn worse(a: HealthLevel, b: HealthLevel) -> HealthLevel {
    if severity(b) > severity(a) {
        b
    } else {
        a
    }
}

impl NodeHealth {
    pub open spec fn components(self) -> Seq<Option<HealthComponent>> {
        seq![
            self.adapter,
            self.runtime_prerequisites,
            self.membership,
            self.links,
            self.topology,
            self.gateway,
        ]
    }

    /// The most severe contribution of any component, `Healthy` when none is present.
    pub open spec fn aggregate_level(self) -> HealthLevel {
        worse(
            worse(
                worse(
                    worse(
                        worse(contribution(self.adapter), contribution(self.runtime_prerequisites)),
                        contribution(self.membership),
                    ),
                    contribution(self.links),
                ),
                contribution(self.topology),
            ),
            contribution(self.gateway),
        )
    }

    pub fn aggregate(&self) -> (level: HealthLevel)
        ensures
            level == self.aggregate_level(),
            forall|i: int|
                0 <= i < 6 ==> severity(contribution(#[trigger] self.components()[i])) <= severity(
                    level,
                ),
            level == HealthLevel::Error <==> exists|i: int|
                0 <= i < 6 && failed_required(#[trigger] self.components()[i]),
    {
        let components = [
            self.adapter,
            self.runtime_prerequisites,
            self.membership,
            self.links,
            self.topology,
            self.gateway,
        ];
        let ghost all = self.components();
        assert(components@ =~= all);
        let mut result = HealthLevel::Healthy;
        let mut i: usize = 0;
        while i < 6
            invariant
                i <= 6,
                components@ == all,
                all == self.components(),
                forall|j: int|
                    0 <= j < i ==> severity(contribution(#[trigger] all[j])) <= severity(result),
                result == HealthLevel::Healthy || exists|j: int|
                    0 <= j < i && contribution(#[trigger] all[j]) == result,
                result == HealthLevel::Error ==> exists|j: int|
                    0 <= j < i && failed_required(#[trigger] all[j]),
            decreases 6 - i,
        {
            if let Some(component) = components[i] {
                if !component.required && component.level == HealthLevel::Error {
                    if result.severity() < HealthLevel::Degraded.severity() {
                        result = HealthLevel::Degraded;
                    }
                } else if component.level.severity() > result.severity() {
                    result = component.level;
                }
            }
            i += 1;
        }
        assert(worse(contribution(all[0]), contribution(all[1])) == worse(
            contribution(self.adapter),
            contribution(self.runtime_prerequisites),
        ));
        assert forall|j: int|
            0 <= j < 6 && failed_required(#[trigger] all[j]) implies result == HealthLevel::Error by {
            assert(severity(contribution(all[j])) == 3);
        }
        result
    }
}

impl Default for NodeHealth {
    fn default() -> (health: Self)
        ensures
            health.adapter is None,
            health.runtime_prerequisites is None,
            health.membership is None,
            health.links is None,
            health.topology is None,
            health.gateway is None,
    {
        NodeHealth {
            adapter: None,
            runtime_prerequisites: None,
            membership: None,
            links: None,
            topology: None,
            gateway: None,
        }
    }
}

} // verus!
