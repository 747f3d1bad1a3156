//! The feature registry: which feature views exist, which features each
//! of them has, and which features each feature service asks for.

use vstd::prelude::*;
use crate::text::{
    copy_names, feature_part, has_separator, qualified, qualify, split_qualified, view_part,
};

verus! {

/// A feature view as the registry file declares it.
#[derive(Debug, Clone, PartialEq, Eq)]
pub struct FeatureViewRecord {
    pub name: String,
    pub project: String,
    /// The names of the view's features.
    pub features: Vec<String>,
}

/// The part of a feature view that a feature service asks for.
#[derive(Debug, Clone, PartialEq, Eq)]
pub struct FeatureProjection {
    pub feature_view_name: String,
    /// The names of the columns asked for.
    pub feature_columns: Vec<String>,
}

/// A feature service as the registry file declares it.
#[derive(Debug, Clone, PartialEq, Eq)]
pub struct FeatureServiceRecord {
    pub name: String,
    pub project: String,
    pub features: Vec<FeatureProjection>,
}

/// What a registry file declares, as far as the registry reads it.
#[derive(Debug, Clone, PartialEq, Eq)]
pub struct RegistryRecord {
    pub feature_views: Vec<FeatureViewRecord>,
    pub feature_services: Vec<FeatureServiceRecord>,
}

/// The feature views and feature services of a feature store.
#[derive(Debug, Clone)]
pub struct Registry {
    pub feature_views: Vec<FeatureView>,
    pub feature_services: Vec<FeatureService>,
}

/// A feature view: a named group of features of one project.
#[derive(Debug, Clone)]
pub struct FeatureView {
    pub project: String,
    pub name: String,
    pub features: Vec<String>,
    /// Each feature as `view:feature`.
    pub full_feature_names: Vec<String>,
}

/// A feature service: a named selection of features of one project.
#[derive(Debug, Clone)]
pub struct FeatureService {
    pub name: String,
    pub project: String,
    /// Each feature asked for as `view:feature`.
    pub full_feature_names: Vec<String>,
}

/// A [`FeatureViewRecord`] as plain values.
pub struct FeatureViewRecordModel {
    pub name: Seq<char>,
    pub project: Seq<char>,
    pub features: Seq<Seq<char>>,
}

/// A [`FeatureProjection`] as plain values.
pub struct FeatureProjectionModel {
    pub feature_view_name: Seq<char>,
    pub feature_columns: Seq<Seq<char>>,
}

/// A [`FeatureServiceRecord`] as plain values.
pub struct FeatureServiceRecordModel {
    pub name: Seq<char>,
    pub project: Seq<char>,
    pub features: Seq<FeatureProjectionModel>,
}

/// A [`RegistryRecord`] as plain values.
pub struct RegistryRecordModel {
    pub feature_views: Seq<FeatureViewRecordModel>,
    pub feature_services: Seq<FeatureServiceRecordModel>,
}

/// A [`FeatureView`] as plain values.
pub struct FeatureViewModel {
    pub project: Seq<char>,
    pub name: Seq<char>,
    pub features: Seq<Seq<char>>,
    pub full_feature_names: Seq<Seq<char>>,
}

/// A [`FeatureService`] as plain values.
pub struct FeatureServiceModel {
    pub name: Seq<char>,
    pub project: Seq<char>,
    pub full_feature_names: Seq<Seq<char>>,
}

/// A [`Registry`] as plain values.
pub struct RegistryModel {
    pub feature_views: Seq<FeatureViewModel>,
    pub feature_services: Seq<FeatureServiceModel>,
}

impl DeepView for FeatureViewRecord {
    type V = FeatureViewRecordModel;

    open spec fn deep_view(&self) -> FeatureViewRecordModel {
        FeatureViewRecordModel {
            name: self.name@,
            project: self.project@,
            features: self.features.deep_view(),
        }
    }
}

impl DeepView for FeatureProjection {
    type V = FeatureProjectionModel;

    open spec fn deep_view(&self) -> FeatureProjectionModel {
        FeatureProjectionModel {
            feature_view_name: self.feature_view_name@,
            feature_columns: self.feature_columns.deep_view(),
        }
    }
}

impl DeepView for FeatureServiceRecord {
    type V = FeatureServiceRecordModel;

    open spec fn deep_view(&self) -> FeatureServiceRecordModel {
        FeatureServiceRecordModel {
            name: self.name@,
            project: self.project@,
            features: self.features.deep_view(),
        }
    }
}

impl DeepView for RegistryRecord {
    type V = RegistryRecordModel;

    open spec fn deep_view(&self) -> RegistryRecordModel {
        RegistryRecordModel {
            feature_views: self.feature_views.deep_view(),
            feature_services: self.feature_services.deep_view(),
        }
    }
}

impl DeepView for FeatureView {
    type V = FeatureViewModel;

    open spec fn deep_view(&self) -> FeatureViewModel {
        FeatureViewModel {
            project: self.project@,
            name: self.name@,
            features: self.features.deep_view(),
            full_feature_names: self.full_feature_names.deep_view(),
        }
    }
}

impl DeepView for FeatureService {
    type V = FeatureServiceModel;

    open spec fn deep_view(&self) -> FeatureServiceModel {
        FeatureServiceModel {
            name: self.name@,
            project: self.project@,
            full_feature_names: self.full_feature_names.deep_view(),
        }
    }
}

impl DeepView for Registry {
    type V = RegistryModel;

    open spec fn deep_view(&self) -> RegistryModel {
        RegistryModel {
            feature_views: self.feature_views.deep_view(),
            feature_services: self.feature_services.deep_view(),
        }
    }
}

/// Each of `features` as `view:feature`.
pub open spec fn qualified_all(view: Seq<char>, features: Seq<Seq<char>>) -> Seq<Seq<char>> {
    Seq::new(features.len(), |i: int| qualified(view, features[i]))
}

/// The feature view that `record` declares.
pub open spec fn feature_view_of(record: FeatureViewRecordModel) -> FeatureViewModel {
    FeatureViewModel {
        project: record.project,
        name: record.name,
        features: record.features,
        full_feature_names: qualified_all(record.name, record.features),
    }
}

/// The columns that `projections` ask for, each qualified by its view, in
/// order.
pub open spec fn projected(projections: Seq<FeatureProjectionModel>) -> Seq<Seq<char>>
    decreases projections.len(),
{
    if projections.len() == 0 {
        Seq::empty()
    } else {
        projected(projections.drop_last()) + qualified_all(
            projections.last().feature_view_name,
            projections.last().feature_columns,
        )
    }
}

/// The feature service that `record` declares.
pub open spec fn feature_service_of(record: FeatureServiceRecordModel) -> FeatureServiceModel {
    FeatureServiceModel {
        name: record.name,
        project: record.project,
        full_feature_names: projected(record.features),
    }
}

/// The greatest position below `n` whose feature view is called `name`.
pub open spec fn last_view_named(views: Seq<FeatureViewModel>, name: Seq<char>, n: int) -> Option<int>
    decreases n,
{
    if n <= 0 {
        None
    } else if views[n - 1].name == name {
        Some(n - 1)
    } else {
        last_view_named(views, name, n - 1)
    }
}

/// The greatest position below `n` whose feature service is called `name`
/// and belongs to `project`.
pub open spec fn last_service_named(
    services: Seq<FeatureServiceModel>,
    name: Seq<char>,
    project: Seq<char>,
    n: int,
) -> Option<int>
    decreases n,
{
    if n <= 0 {
        None
    } else if services[n - 1].name == name && services[n - 1].project == project {
        Some(n - 1)
    } else {
        last_service_named(services, name, project, n - 1)
    }
}

impl RegistryModel {
    /// The features that the service `name` of `project` asks for: those
    /// of the last service so called, and none where there is no such
    /// service.
    pub open spec fn service_features(self, name: Seq<char>, project: Seq<char>) -> Seq<Seq<char>> {
        match last_service_named(
            self.feature_services,
            name,
            project,
            self.feature_services.len() as int,
        ) {
            Some(i) => self.feature_services[i].full_feature_names,
            None => Seq::empty(),
        }
    }

    /// Whether `feature`, written `view:feature`, is a feature of the
    /// last feature view called `view`.
    pub open spec fn has_feature(self, feature: Seq<char>) -> bool {
        &&& has_separator(feature)
        &&& match last_view_named(
            self.feature_views,
            view_part(feature),
            self.feature_views.len() as int,
        ) {
            Some(i) => self.feature_views[i].features.contains(feature_part(feature)),
            None => false,
        }
    }

    /// Whether each of `features` is known: see [`RegistryModel::has_feature`].
    pub open spec fn has_features(self, features: Seq<Seq<char>>) -> bool {
        forall|i: int| 0 <= i < features.len() ==> self.has_feature(#[trigger] features[i])
    }

    /// Whether a check of `features`, one after the other and up to the
    /// first unknown one, only meets names that hold a separator.
    pub open spec fn can_check(self, features: Seq<Seq<char>>) -> bool {
        forall|i: int|
            0 <= i < features.len() && self.has_features(features.take(i)) ==> has_separator(
                #[trigger] features[i],
            )
    }
}

/// Builds `view:feature` for each of `features`.
pub fn qualify_all(view: &String, features: &Vec<String>) -> (names: Vec<String>)
    ensures
        names.deep_view() == qualified_all(view@, features.deep_view()),
{
    let mut names: Vec<String> = Vec::new();
    let mut i: usize = 0;
    while i < features.len()
        invariant
            i <= features.len(),
            names@.len() == i,
            forall|k: int| 0 <= k < i ==> names@[k]@ == qualified(view@, features@[k]@),
        decreases features.len() - i,
    {
        names.push(qualify(view.as_str(), features[i].as_str()));
        i += 1;
    }
    assert(names.deep_view() =~= qualified_all(view@, features.deep_view()));
    names
}

impl Registry {
    /// Builds the registry from what a registry file declares.
    pub fn new(record: &RegistryRecord) -> (registry: Registry)
        ensures
            registry.deep_view().feature_views == record.deep_view().feature_views.map_values(
                |r: FeatureViewRecordModel| feature_view_of(r),
            ),
            registry.deep_view().feature_services
                == record.deep_view().feature_services.map_values(
                |r: FeatureServiceRecordModel| feature_service_of(r),
            ),
    {
        let feature_views = Registry::read_feature_views(record);
        let feature_services = Registry::read_read_feature_services(record);
        Registry { feature_services, feature_views }
    }

    /// The feature services that `record` declares, in order, each with
    /// the columns it asks for written as `view:column`.
    pub fn read_read_feature_services(record: &RegistryRecord) -> (services: Vec<FeatureService>)
        ensures
            services.deep_view() == record.deep_view().feature_services.map_values(
                |r: FeatureServiceRecordModel| feature_service_of(r),
            ),
    {
        let mut services: Vec<FeatureService> = Vec::new();
        let mut i: usize = 0;
        while i < record.feature_services.len()
            invariant
                i <= record.feature_services.len(),
                services@.len() == i,
                forall|k: int|
                    0 <= k < i ==> (#[trigger] services@[k]).deep_view() == feature_service_of(
                        record.feature_services@[k].deep_view(),
                    ),
            decreases record.feature_services.len() - i,
        {
            let declared = &record.feature_services[i];
            let mut full_feature_names: Vec<String> = Vec::new();
            let mut p: usize = 0;
            assert(declared.features.deep_view().take(0) =~= Seq::empty());
            assert(full_feature_names.deep_view() =~= Seq::<Seq<char>>::empty());
            while p < declared.features.len()
                invariant
                    p <= declared.features.len(),
                    full_feature_names.deep_view() == projected(
                        declared.features.deep_view().take(p as int),
                    ),
                decreases declared.features.len() - p,
            {
                let projection = &declared.features[p];
                let mut names = qualify_all(
                    &projection.feature_view_name,
                    &projection.feature_columns,
                );
                let ghost before = full_feature_names.deep_view();
                let ghost added = names.deep_view();
                full_feature_names.append(&mut names);
                proof {
                    let all = declared.features.deep_view();
                    assert(full_feature_names.deep_view() =~= before + added);
                    assert(all.take(p + 1).drop_last() =~= all.take(p as int));
                    assert(all.take(p + 1).last() == projection.deep_view());
                }
                p += 1;
            }
            assert(declared.features.deep_view().take(declared.features@.len() as int)
                =~= declared.features.deep_view());
            services.push(
                FeatureService {
                    name: declared.name.clone(),
                    project: declared.project.clone(),
                    full_feature_names,
                },
            );
            i += 1;
        }
        assert(services.deep_view() =~= record.deep_view().feature_services.map_values(
            |r: FeatureServiceRecordModel| feature_service_of(r),
        ));
        services
    }

    /// The feature views that `record` declares, in order, each with its
    /// features written as `view:feature` as well.
    pub fn read_feature_views(record: &RegistryRecord) -> (views: Vec<FeatureView>)
        ensures
            views.deep_view() == record.deep_view().feature_views.map_values(
                |r: FeatureViewRecordModel| feature_view_of(r),
            ),
    {
        let mut views: Vec<FeatureView> = Vec::new();
        let mut i: usize = 0;
        while i < record.feature_views.len()
            invariant
                i <= record.feature_views.len(),
                views@.len() == i,
                forall|k: int|
                    0 <= k < i ==> (#[trigger] views@[k]).deep_view() == feature_view_of(
                        record.feature_views@[k].deep_view(),
                    ),
            decreases record.feature_views.len() - i,
        {
            let declared = &record.feature_views[i];
            let features = copy_names(&declared.features);
            assert(features.deep_view() =~= declared.features.deep_view());
            let full_feature_names = qualify_all(&declared.name, &declared.features);
            views.push(
                FeatureView {
                    name: declared.name.clone(),
                    project: declared.project.clone(),
                    features,
                    full_feature_names,
                },
            );
            i += 1;
        }
        assert(views.deep_view() =~= record.deep_view().feature_views.map_values(
            |r: FeatureViewRecordModel| feature_view_of(r),
        ));
        views
    }

    /// The features of the feature service `name` of `project`. Where
    /// several services are so called the last one counts; where none is,
    /// the list is empty.
    pub fn get_feature_service(&self, name: String, project: String) -> (features: Vec<String>)
        ensures
            features.deep_view() == self.deep_view().service_features(name@, project@),
    {
        let ghost services = self.deep_view().feature_services;
        let mut n: usize = self.feature_services.len();
        while n > 0
            invariant
                n <= self.feature_services.len(),
                services == self.deep_view().feature_services,
                last_service_named(services, name@, project@, services.len() as int)
                    == last_service_named(services, name@, project@, n as int),
            decreases n,
        {
            let service = &self.feature_services[n - 1];
            assert(services[n - 1] == service.deep_view());
            if service.name == name && service.project == project {
                let features = copy_names(&service.full_feature_names);
                assert(features.deep_view() =~= service.full_feature_names.deep_view());
                return features;
            }
            n -= 1;
        }
        let features: Vec<String> = Vec::new();
        assert(features.deep_view() =~= Seq::<Seq<char>>::empty());
        features
    }

    /// The last feature view called `name`, where there is one.
    fn find_view(&self, name: &String) -> (found: Option<usize>)
        ensures
            match found {
                Some(i) => i < self.feature_views@.len() && last_view_named(
                    self.deep_view().feature_views,
                    name@,
                    self.feature_views@.len() as int,
                ) == Some(i as int),
                None => last_view_named(
                    self.deep_view().feature_views,
                    name@,
                    self.feature_views@.len() as int,
                ) is None,
            },
    {
        let ghost views = self.deep_view().feature_views;
        let mut n: usize = self.feature_views.len();
        while n > 0
            invariant
                n <= self.feature_views.len(),
                views == self.deep_view().feature_views,
                last_view_named(views, name@, views.len() as int) == last_view_named(
                    views,
                    name@,
                    n as int,
                ),
            decreases n,
        {
            assert(views[n - 1] == self.feature_views@[n - 1].deep_view());
            if self.feature_views[n - 1].name == *name {
                return Some(n - 1);
            }
            n -= 1;
        }
        None
    }

    /// Whether each of `features`, written `view:feature`, is a feature
    /// of the feature view it names (the last one so called). The names
    /// are checked in order and the check stops at the first unknown one;
    /// every name that it gets to must hold a `:`.
    pub fn check_features(&self, features: Vec<String>) -> (known: bool)
        requires
            self.deep_view().can_check(features.deep_view()),
        ensures
            known == self.deep_view().has_features(features.deep_view()),
    {
        self.try_check_features(features).unwrap()
    }

    /// [`Registry::check_features`] for any list of names: `None` where
    /// the check gets to a name that holds no `:`.
    pub fn try_check_features(&self, features: Vec<String>) -> (checked: Option<bool>)
        ensures
            match checked {
                Some(known) => self.deep_view().can_check(features.deep_view()) && known
                    == self.deep_view().has_features(features.deep_view()),
                None => !self.deep_view().can_check(features.deep_view()),
            },
    {
        let ghost model = self.deep_view();
        let ghost names = features.deep_view();
        let mut i: usize = 0;
        while i < features.len()
            invariant
                i <= features.len(),
                model == self.deep_view(),
                names == features.deep_view(),
                forall|k: int| 0 <= k < i ==> model.has_feature(#[trigger] names[k]),
            decreases features.len() - i,
        {
            assert(names[i as int] == features@[i as int]@);
            assert(model.has_features(names.take(i as int)));
            let held = match split_qualified(features[i].as_str()) {
                None => {
                    return None;
                },
                Some((view, feature)) => match self.find_view(&view) {
                    None => false,
                    Some(v) => {
                        assert(model.feature_views[v as int]
                            == self.feature_views@[v as int].deep_view());
                        contains_name(&self.feature_views[v].features, &feature)
                    },
                },
            };
            if !held {
                assert(!model.has_feature(names[i as int]));
                assert forall|k: int|
                    0 <= k < names.len() && model.has_features(
                        names.take(k),
                    ) implies has_separator(#[trigger] names[k]) by {
                    if k > i {
                        assert(names.take(k)[i as int] == names[i as int]);
                    } else if k < i {
                        assert(model.has_feature(names[k]));
                    }
                }
                return Some(false);
            }
            i += 1;
        }
        Some(true)
    }
}

/// Whether `names` holds `name`.
pub fn contains_name(names: &Vec<String>, name: &String) -> (found: bool)
    ensures
        found == names.deep_view().contains(name@),
{
    let mut i: usize = 0;
    while i < names.len()
        invariant
            i <= names.len(),
            forall|k: int| 0 <= k < i ==> names.deep_view()[k] != name@,
        decreases names.len() - i,
    {
        if names[i] == *name {
            assert(names.deep_view()[i as int] == name@);
            return true;
        }
        i += 1;
    }
    false
}

} // verus!
