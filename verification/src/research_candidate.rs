//! The candidates of the cache research run: a closed set of scale recipes and row permutations,
//! each with an identity of its own.
use crate::text::{joined, joined3, same_text, signed_decimal, signed_decimal_string, text_opt};
use vstd::prelude::*;
use vstd::string::StringExecFns;

verus! {

broadcast use vstd::string::group_string_axioms;

/// How the scale of a block is chosen.
#[derive(Clone, Copy, Debug, PartialEq, Eq, Structural)]
pub enum Recipe {
    Floor,
    Ceil,
    NearestEven,
    Parent32Duplicate,
}

impl Recipe {
    /// The number of a recipe in the native interface.
    pub open spec fn number(self) -> u32 {
        match self {
            Recipe::Floor => 0,
            Recipe::Ceil => 1,
            Recipe::NearestEven => 2,
            Recipe::Parent32Duplicate => 3,
        }
    }

    /// The number of a recipe in the native interface.
    pub fn runtime_value(self) -> (out: u32)
        ensures
            out == self.number(),
    {
        match self {
            Recipe::Floor => 0,
            Recipe::Ceil => 1,
            Recipe::NearestEven => 2,
            Recipe::Parent32Duplicate => 3,
        }
    }

    /// The name of a recipe.
    pub open spec fn label(self) -> Seq<char> {
        match self {
            Recipe::Floor => "floor"@,
            Recipe::Ceil => "ceil"@,
            Recipe::NearestEven => "nearest-even"@,
            Recipe::Parent32Duplicate => "parent32-duplicate"@,
        }
    }

    /// The name of a recipe.
    pub fn id(self) -> (out: &'static str)
        ensures
            out@ == self.label(),
    {
        match self {
            Recipe::Floor => "floor",
            Recipe::Ceil => "ceil",
            Recipe::NearestEven => "nearest-even",
            Recipe::Parent32Duplicate => "parent32-duplicate",
        }
    }
}

/// Recipes have different numbers.
pub proof fn recipe_numbers_are_distinct(a: Recipe, b: Recipe)
    requires
        a.number() == b.number(),
    ensures
        a == b,
{
}

/// A candidate as its specification file describes it.
#[derive(Debug)]
pub struct CandidateSpec {
    pub schema_version: String,
    pub candidate_id: String,
    pub scale_selector: String,
    pub rounding: String,
    pub k_recipe: Recipe,
    pub v_recipe: Recipe,
    pub transform: String,
    pub calibration_digest: Option<String>,
    pub descriptor_compatibility: String,
}

/// The names by which a specification selects a permutation of the value rows: in one layer, or
/// in two.
#[derive(Debug)]
pub struct TransformSelectors {
    pub vo: String,
    pub vo_layers19_31: String,
}

impl TransformSelectors {
    /// Whether the names differ from each other and from those of the other permutations.
    pub open spec fn are_distinct(self) -> bool {
        &&& self.vo@ != self.vo_layers19_31@
        &&& self.vo@ != "none"@
        &&& self.vo@ != "transpose16x16-all-full"@
        &&& self.vo_layers19_31@ != "none"@
        &&& self.vo_layers19_31@ != "transpose16x16-all-full"@
    }
}

/// What a specification says.
pub struct CandidateView {
    pub schema_version: Seq<char>,
    pub candidate_id: Seq<char>,
    pub scale_selector: Seq<char>,
    pub rounding: Seq<char>,
    pub k_recipe: Recipe,
    pub v_recipe: Recipe,
    pub transform: Seq<char>,
    pub calibration_digest: Option<Seq<char>>,
    pub descriptor_compatibility: Seq<char>,
}

impl View for CandidateSpec {
    type V = CandidateView;

    open spec fn view(&self) -> CandidateView {
        CandidateView {
            schema_version: self.schema_version@,
            candidate_id: self.candidate_id@,
            scale_selector: self.scale_selector@,
            rounding: self.rounding@,
            k_recipe: self.k_recipe,
            v_recipe: self.v_recipe,
            transform: self.transform@,
            calibration_digest: text_opt(self.calibration_digest),
            descriptor_compatibility: self.descriptor_compatibility@,
        }
    }
}

/// What kind of candidate a specification describes.
#[derive(Clone, Copy, Debug, PartialEq, Eq, Structural)]
pub enum CandidateKind {
    ProductionControl,
    KeyQueryTransform,
    ValueOutputTransform,
    ValueOutputLayersTransform,
    RecipePair,
}

/// The recipes and the permutation that a candidate selects.
pub struct Choice {
    pub k: Recipe,
    pub v: Recipe,
    pub transform: Seq<char>,
}

impl Choice {
    /// What kind of candidate the choice makes.
    pub open spec fn kind(self, selectors: TransformSelectors) -> CandidateKind {
        if self.k != Recipe::Floor || self.v != Recipe::Floor {
            CandidateKind::RecipePair
        } else if self.transform == "none"@ {
            CandidateKind::ProductionControl
        } else if self.transform == "transpose16x16-all-full"@ {
            CandidateKind::KeyQueryTransform
        } else if self.transform == selectors.vo@ {
            CandidateKind::ValueOutputTransform
        } else if self.transform == selectors.vo_layers19_31@ {
            CandidateKind::ValueOutputLayersTransform
        } else {
            CandidateKind::RecipePair
        }
    }

    /// The identity of the candidate that the choice makes.
    pub open spec fn identity(self, selectors: TransformSelectors) -> Seq<char> {
        match self.kind(selectors) {
            CandidateKind::ProductionControl => "production-control-v2"@,
            CandidateKind::KeyQueryTransform => "phase54-kq-transpose16x16-all-full-v1"@,
            CandidateKind::ValueOutputTransform => "phase54-vo-transpose16x16-layer19-v1"@,
            CandidateKind::ValueOutputLayersTransform => "phase54-vo-transpose16x16-layers19-31-v1"@,
            CandidateKind::RecipePair => pair_identity(self.k, self.v),
        }
    }

    /// The candidate that the choice makes.
    pub open spec fn candidate(self, selectors: TransformSelectors) -> CandidateView {
        CandidateView {
            schema_version: "sllm-phase54-kv-candidate-spec-v1"@,
            candidate_id: self.identity(selectors),
            scale_selector: "independent-k-v-closed-enum-v1"@,
            rounding: "nearest-even"@,
            k_recipe: self.k,
            v_recipe: self.v,
            transform: self.transform,
            calibration_digest: None,
            descriptor_compatibility: if self.kind(selectors) == CandidateKind::ProductionControl {
                "exact-production-v2"@
            } else {
                "research-build-semantic-override-not-v2-compatible"@
            },
        }
    }
}

/// The identity of a pair of recipes.
pub open spec fn pair_identity(k: Recipe, v: Recipe) -> Seq<char> {
    "phase54-k-"@ + k.label() + "-v-"@ + v.label() + "-v1"@
}

/// A choice.
pub open spec fn choice_of(k: Recipe, v: Recipe, transform: Seq<char>) -> Choice {
    Choice { k, v, transform }
}

/// The choices of the closed set: every pair of the three plain recipes, the doubled parent scales,
/// and the three permutations.
pub open spec fn closed_choices(selectors: TransformSelectors) -> Seq<Choice> {
    seq![
        choice_of(Recipe::Floor, Recipe::Floor, "none"@),
        choice_of(Recipe::Floor, Recipe::Ceil, "none"@),
        choice_of(Recipe::Floor, Recipe::NearestEven, "none"@),
        choice_of(Recipe::Ceil, Recipe::Floor, "none"@),
        choice_of(Recipe::Ceil, Recipe::Ceil, "none"@),
        choice_of(Recipe::Ceil, Recipe::NearestEven, "none"@),
        choice_of(Recipe::NearestEven, Recipe::Floor, "none"@),
        choice_of(Recipe::NearestEven, Recipe::Ceil, "none"@),
        choice_of(Recipe::NearestEven, Recipe::NearestEven, "none"@),
        choice_of(Recipe::Parent32Duplicate, Recipe::Parent32Duplicate, "none"@),
        choice_of(Recipe::Floor, Recipe::Floor, "transpose16x16-all-full"@),
        choice_of(Recipe::Floor, Recipe::Floor, selectors.vo@),
        choice_of(Recipe::Floor, Recipe::Floor, selectors.vo_layers19_31@),
    ]
}

impl CandidateSpec {
    /// Whether both recipes are the plain one and a permutation is selected.
    pub open spec fn is_floor_with(self, transform: Seq<char>) -> bool {
        &&& self.k_recipe == Recipe::Floor
        &&& self.v_recipe == Recipe::Floor
        &&& self.transform@ == transform
    }

    /// Whether both recipes double the scales of a parent block.
    pub open spec fn is_parent32_duplicate(self) -> bool {
        &&& self.k_recipe == Recipe::Parent32Duplicate
        &&& self.v_recipe == Recipe::Parent32Duplicate
        &&& self.transform@ == "none"@
    }

    /// What kind of candidate this is.
    pub open spec fn kind_of(self, selectors: TransformSelectors) -> CandidateKind {
        self.choice().kind(selectors)
    }

    /// The recipes and the permutation that a candidate selects.
    pub open spec fn choice(self) -> Choice {
        Choice { k: self.k_recipe, v: self.v_recipe, transform: self.transform@ }
    }

    /// The identity that a candidate must carry.
    pub open spec fn identity(self, selectors: TransformSelectors) -> Seq<char> {
        self.choice().identity(selectors)
    }

    /// Whether a candidate is one of the closed set, under its own identity.
    pub open spec fn is_closed(self, selectors: TransformSelectors) -> bool {
        &&& self.schema_version@ == "sllm-phase54-kv-candidate-spec-v1"@
        &&& self.candidate_id@ == self.identity(selectors)
        &&& self.scale_selector@ == "independent-k-v-closed-enum-v1"@
        &&& self.rounding@ == "nearest-even"@
        &&& self.calibration_digest is None
        &&& self.descriptor_compatibility@ == if self.is_floor_with("none"@) {
            "exact-production-v2"@
        } else {
            "research-build-semantic-override-not-v2-compatible"@
        }
        &&& (self.k_recipe == Recipe::Parent32Duplicate || self.v_recipe
            == Recipe::Parent32Duplicate) ==> self.is_parent32_duplicate()
        &&& self.transform@ == "none"@ || self.is_floor_with("transpose16x16-all-full"@)
            || self.is_floor_with(selectors.vo@) || self.is_floor_with(selectors.vo_layers19_31@)
    }

    fn floor_with(&self, transform: &str) -> (out: bool)
        ensures
            out == self.is_floor_with(transform@),
    {
        self.k_recipe == Recipe::Floor && self.v_recipe == Recipe::Floor && same_text(
            self.transform.as_str(),
            transform,
        )
    }

    /// Whether both recipes double the scales of a parent block.
    pub fn parent32_duplicate_candidate(&self) -> (out: bool)
        ensures
            out == self.is_parent32_duplicate(),
    {
        self.k_recipe == Recipe::Parent32Duplicate && self.v_recipe == Recipe::Parent32Duplicate
            && same_text(self.transform.as_str(), "none")
    }

    /// Whether this is the production recipe.
    pub fn production_control(&self) -> (out: bool)
        ensures
            out == self.is_floor_with("none"@),
    {
        self.floor_with("none")
    }

    /// Whether the rows of keys and queries are permuted.
    pub fn transform_candidate(&self) -> (out: bool)
        ensures
            out == self.is_floor_with("transpose16x16-all-full"@),
    {
        self.floor_with("transpose16x16-all-full")
    }

    /// Whether the value rows of one layer are permuted.
    pub fn vo_transform_candidate(&self, selectors: &TransformSelectors) -> (out: bool)
        ensures
            out == self.is_floor_with(selectors.vo@),
    {
        self.floor_with(selectors.vo.as_str())
    }

    /// Whether the value rows of two layers are permuted.
    pub fn vo_layers19_31_transform_candidate(&self, selectors: &TransformSelectors) -> (out: bool)
        ensures
            out == self.is_floor_with(selectors.vo_layers19_31@),
    {
        self.floor_with(selectors.vo_layers19_31.as_str())
    }

    /// What kind of candidate this is.
    pub fn kind(&self, selectors: &TransformSelectors) -> (out: CandidateKind)
        ensures
            out == self.kind_of(*selectors),
    {
        if self.production_control() {
            CandidateKind::ProductionControl
        } else if self.transform_candidate() {
            CandidateKind::KeyQueryTransform
        } else if self.vo_transform_candidate(selectors) {
            CandidateKind::ValueOutputTransform
        } else if self.vo_layers19_31_transform_candidate(selectors) {
            CandidateKind::ValueOutputLayersTransform
        } else {
            CandidateKind::RecipePair
        }
    }

    /// The identity that a candidate must carry.
    pub fn expected_id(&self, selectors: &TransformSelectors) -> (out: String)
        ensures
            out@ == self.identity(*selectors),
    {
        match self.kind(selectors) {
            CandidateKind::ProductionControl => "production-control-v2".to_owned(),
            CandidateKind::KeyQueryTransform => "phase54-kq-transpose16x16-all-full-v1".to_owned(),
            CandidateKind::ValueOutputTransform => "phase54-vo-transpose16x16-layer19-v1".to_owned(),
            CandidateKind::ValueOutputLayersTransform => "phase54-vo-transpose16x16-layers19-31-v1".to_owned(),
            CandidateKind::RecipePair => {
                let mut id = joined3("phase54-k-", self.k_recipe.id(), "-v-");
                id.append(self.v_recipe.id());
                id.append("-v1");
                id
            },
        }
    }

    /// Refuses a candidate that is not one of the closed set under its own identity.
    pub fn validate(&self, selectors: &TransformSelectors) -> (out: Result<(), String>)
        ensures
            if self.is_closed(*selectors) {
                out is Ok
            } else {
                out is Err && out->Err_0@
                    == "candidate spec does not match the closed Phase 54 recipe identity"@
            },
    {
        let compatibility = if self.production_control() {
            "exact-production-v2"
        } else {
            "research-build-semantic-override-not-v2-compatible"
        };
        let id = self.expected_id(selectors);
        let stray_parent = (self.k_recipe == Recipe::Parent32Duplicate || self.v_recipe
            == Recipe::Parent32Duplicate) && !self.parent32_duplicate_candidate();
        let stray_transform = !self.transform_candidate() && !self.vo_transform_candidate(selectors)
            && !self.vo_layers19_31_transform_candidate(selectors) && !same_text(
            self.transform.as_str(),
            "none",
        );
        if !same_text(self.schema_version.as_str(), "sllm-phase54-kv-candidate-spec-v1")
            || !same_text(self.candidate_id.as_str(), id.as_str()) || !same_text(
            self.scale_selector.as_str(),
            "independent-k-v-closed-enum-v1",
        ) || !same_text(self.rounding.as_str(), "nearest-even")
            || self.calibration_digest.is_some() || !same_text(
            self.descriptor_compatibility.as_str(),
            compatibility,
        ) || stray_parent || stray_transform {
            return Err(
                "candidate spec does not match the closed Phase 54 recipe identity".to_owned(),
            );
        }
        Ok(())
    }
}

/// Only the production recipe may claim to be compatible with production.
pub proof fn compatibility_is_claimed_by_production_alone(
    spec: CandidateSpec,
    selectors: TransformSelectors,
)
    requires
        spec.is_closed(selectors),
        spec.descriptor_compatibility@ == "exact-production-v2"@,
    ensures
        spec.is_floor_with("none"@),
{
    reveal_strlit("exact-production-v2");
    reveal_strlit("research-build-semantic-override-not-v2-compatible");
    assert("exact-production-v2"@.len() != "research-build-semantic-override-not-v2-compatible"@.len());
}

/// What the characters of a pair's identity give away.
proof fn pair_identity_shows_its_recipes(k: Recipe, v: Recipe)
    ensures
        pair_identity(k, v).len() == 16 + k.label().len() + v.label().len(),
        pair_identity(k, v)[1] == 'h',
        pair_identity(k, v)[8] == 'k',
        pair_identity(k, v)[9] == '-',
        pair_identity(k, v)[10] == k.label()[0],
        k.label()[0] == match k {
            Recipe::Floor => 'f',
            Recipe::Ceil => 'c',
            Recipe::NearestEven => 'n',
            Recipe::Parent32Duplicate => 'p',
        },
        v.label().len() == match v {
            Recipe::Floor => 5,
            Recipe::Ceil => 4,
            Recipe::NearestEven => 12nat,
            Recipe::Parent32Duplicate => 18,
        },
{
    reveal_strlit("phase54-k-");
    reveal_strlit("-v-");
    reveal_strlit("-v1");
    reveal_strlit("floor");
    reveal_strlit("ceil");
    reveal_strlit("nearest-even");
    reveal_strlit("parent32-duplicate");
}

/// Two candidates of the closed set have the same identity exactly where they are the same: an
/// identity stands for one candidate.
pub proof fn identities_fix_their_candidates(
    a: CandidateSpec,
    b: CandidateSpec,
    selectors: TransformSelectors,
)
    requires
        selectors.are_distinct(),
        a.is_closed(selectors),
        b.is_closed(selectors),
    ensures
        a.candidate_id@ == b.candidate_id@ <==> a@ == b@,
{
    reveal_strlit("none");
    reveal_strlit("transpose16x16-all-full");
    reveal_strlit("production-control-v2");
    reveal_strlit("phase54-kq-transpose16x16-all-full-v1");
    reveal_strlit("phase54-vo-transpose16x16-layer19-v1");
    reveal_strlit("phase54-vo-transpose16x16-layers19-31-v1");
    pair_identity_shows_its_recipes(a.k_recipe, a.v_recipe);
    pair_identity_shows_its_recipes(b.k_recipe, b.v_recipe);
    pair_identity_shows_its_recipes(b.v_recipe, a.k_recipe);
    assert("production-control-v2"@[1] == 'r');
    assert("phase54-kq-transpose16x16-all-full-v1"@[1] == 'h');
    assert("phase54-kq-transpose16x16-all-full-v1"@[8] == 'k');
    assert("phase54-kq-transpose16x16-all-full-v1"@[9] == 'q');
    assert("phase54-vo-transpose16x16-layer19-v1"@[1] == 'h');
    assert("phase54-vo-transpose16x16-layer19-v1"@[8] == 'v');
    assert("phase54-vo-transpose16x16-layers19-31-v1"@[1] == 'h');
    assert("phase54-vo-transpose16x16-layers19-31-v1"@[8] == 'v');
    assert("phase54-vo-transpose16x16-layer19-v1"@.len()
        != "phase54-vo-transpose16x16-layers19-31-v1"@.len());
    if a.candidate_id@ == b.candidate_id@ {
        assert(a.kind_of(selectors) == b.kind_of(selectors));
        if a.kind_of(selectors) == CandidateKind::RecipePair {
            assert(a.k_recipe == b.k_recipe);
            assert(a.v_recipe.label().len() == b.v_recipe.label().len());
        }
        assert(a@ == b@);
    }
}

/// The closed set holds exactly the thirteen candidates that its choices make.
pub proof fn thirteen_candidates_are_closed(selectors: TransformSelectors)
    requires
        selectors.are_distinct(),
    ensures
        closed_choices(selectors).len() == 13,
        closed_choices(selectors).no_duplicates(),
        forall|spec: CandidateSpec| #[trigger]
            spec.is_closed(selectors) <==> closed_choices(selectors).contains(spec.choice())
                && spec@ == spec.choice().candidate(selectors),
{
    let choices = closed_choices(selectors);
    reveal_strlit("none");
    reveal_strlit("transpose16x16-all-full");
    assert("none"@.len() != "transpose16x16-all-full"@.len());
    let place = |choice: Choice|
        if choice.transform == "none"@ {
            if choice.k == Recipe::Parent32Duplicate {
                9int
            } else {
                3 * choice.k.number() + choice.v.number()
            }
        } else if choice.transform == "transpose16x16-all-full"@ {
            10
        } else if choice.transform == selectors.vo@ {
            11
        } else {
            12
        };
    assert forall|i: int| 0 <= i < 13 implies place(#[trigger] choices[i]) == i by {
        assert(place(choices[0]) == 0 && place(choices[1]) == 1 && place(choices[2]) == 2);
        assert(place(choices[3]) == 3 && place(choices[4]) == 4 && place(choices[5]) == 5);
        assert(place(choices[6]) == 6 && place(choices[7]) == 7 && place(choices[8]) == 8);
        assert(place(choices[9]) == 9 && place(choices[10]) == 10);
        assert(place(choices[11]) == 11 && place(choices[12]) == 12);
    }
    assert forall|spec: CandidateSpec| #[trigger]
        spec.is_closed(selectors) <==> choices.contains(spec.choice()) && spec@
            == spec.choice().candidate(selectors) by {
        let choice = spec.choice();
        if spec.is_closed(selectors) {
            assert(exists|i: int| 0 <= i < 13 && #[trigger] choices[i] == choice) by {
                assert(choices[0] == choice || choices[1] == choice || choices[2] == choice
                    || choices[3] == choice || choices[4] == choice || choices[5] == choice
                    || choices[6] == choice || choices[7] == choice || choices[8] == choice
                    || choices[9] == choice || choices[10] == choice || choices[11] == choice
                    || choices[12] == choice);
            }
        }
    }
}

/// What reading the recipes back gave.
#[derive(Clone, Copy, Debug, PartialEq, Eq, Structural)]
pub struct RecipeRead {
    pub status: i32,
    pub key: u32,
    pub value: u32,
}

/// The message that refuses a choice of recipes, if there is one.
pub open spec fn recipe_refusal(key: Recipe, value: Recipe, set_status: i32, read: RecipeRead) -> Option<
    Seq<char>,
> {
    if set_status != 0 {
        Some("set Phase 54 recipe pair failed with status "@ + signed_decimal(set_status as int))
    } else if read.status != 0 {
        Some("get Phase 54 recipe pair failed with status "@ + signed_decimal(read.status as int))
    } else if read.key != key.number() || read.value != value.number() {
        Some("Phase 54 recipe getter did not preserve the selected pair"@)
    } else {
        None
    }
}

/// Verifies a choice of recipes by the status of setting them and what reading them back gave.
pub fn set_and_verify_recipe_pair(key: Recipe, value: Recipe, set_status: i32, read: RecipeRead) -> (out:
    Result<(), String>)
    ensures
        match recipe_refusal(key, value, set_status, read) {
            Some(message) => out is Err && out->Err_0@ == message,
            None => out is Ok,
        },
{
    if set_status != 0 {
        let status = signed_decimal_string(set_status);
        return Err(joined("set Phase 54 recipe pair failed with status ", status.as_str()));
    }
    if read.status != 0 {
        let status = signed_decimal_string(read.status);
        return Err(joined("get Phase 54 recipe pair failed with status ", status.as_str()));
    }
    if read.key != key.runtime_value() || read.value != value.runtime_value() {
        return Err("Phase 54 recipe getter did not preserve the selected pair".to_owned());
    }
    Ok(())
}

/// A candidate that is accepted says of itself what it is: production by its own name where nothing is
/// changed, else a pair of recipes by theirs; a permutation goes with the production recipes alone, and
/// the duplicated scale with itself.
pub proof fn accepted_candidates_are_what_they_say(
    spec: &CandidateSpec,
    selectors: &TransformSelectors,
)
    requires
        selectors.are_distinct(),
        call_ensures(CandidateSpec::validate, (spec, selectors), Ok(())),
    ensures
        ({
            let plain = spec.k_recipe == Recipe::Floor && spec.v_recipe == Recipe::Floor;
            &&& spec.rounding@ == "nearest-even"@ && spec.calibration_digest is None
            &&& spec.candidate_id@ == "production-control-v2"@ <==> plain && spec.transform@ == "none"@
            &&& spec.descriptor_compatibility@ == "exact-production-v2"@ <==> spec.candidate_id@
                == "production-control-v2"@
            &&& spec.transform@ != "none"@ ==> plain && (spec.transform@ == "transpose16x16-all-full"@
                || spec.transform@ == selectors.vo@ || spec.transform@ == selectors.vo_layers19_31@)
            &&& !plain ==> spec.candidate_id@ == "phase54-k-"@ + spec.k_recipe.label() + "-v-"@
                + spec.v_recipe.label() + "-v1"@
            &&& spec.k_recipe == Recipe::Parent32Duplicate <==> spec.v_recipe
                == Recipe::Parent32Duplicate
        }),
{
    reveal_strlit("none");
    reveal_strlit("transpose16x16-all-full");
    reveal_strlit("production-control-v2");
    reveal_strlit("phase54-kq-transpose16x16-all-full-v1");
    reveal_strlit("phase54-vo-transpose16x16-layer19-v1");
    reveal_strlit("phase54-vo-transpose16x16-layers19-31-v1");
    reveal_strlit("exact-production-v2");
    reveal_strlit("research-build-semantic-override-not-v2-compatible");
    pair_identity_shows_its_recipes(spec.k_recipe, spec.v_recipe);
    assert("production-control-v2"@[1] == 'r');
    assert("phase54-kq-transpose16x16-all-full-v1"@[1] == 'h');
    assert("phase54-vo-transpose16x16-layer19-v1"@[1] == 'h');
    assert("phase54-vo-transpose16x16-layers19-31-v1"@[1] == 'h');
    assert("exact-production-v2"@.len() != "research-build-semantic-override-not-v2-compatible"@.len());
    assert("none"@.len() != "transpose16x16-all-full"@.len());
}

/// A pair of recipes is set exactly where both calls succeed and the pair is read back.
pub proof fn set_recipes_are_read_back(
    key: Recipe,
    value: Recipe,
    set_status: i32,
    read: RecipeRead,
    key_number: u32,
    value_number: u32,
    out: Result<(), String>,
)
    requires
        call_ensures(set_and_verify_recipe_pair, (key, value, set_status, read), out),
        call_ensures(Recipe::runtime_value, (key,), key_number),
        call_ensures(Recipe::runtime_value, (value,), value_number),
    ensures
        out is Ok <==> set_status == 0 && read.status == 0 && read.key == key_number && read.value
            == value_number,
        key_number < 4,
        key != value ==> key_number != value_number,
        key == Recipe::Floor ==> key_number == 0,
{
}

} // verus!
