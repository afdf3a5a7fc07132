//! Scenes and their manager: a registry of scenes by name, of which at most
//! one is current and receives every call.

use crate::registry::{
    distinct, holds, lemma_registry_at, lemma_registry_push, lemma_registry_update, lemma_slot,
    registry,
};
use std::collections::VecDeque;
use std::marker::PhantomData;
use vstd::prelude::*;

verus! {

/// A unit of application behaviour that a [`SceneManager`] can make current.
///
/// `Data` is what the application hands to every hook, `Event` what it sends
/// to the current scene. A hook that is not implemented changes nothing; of
/// a hook that is implemented, nothing is known but what its implementation
/// states.
pub trait Scene<Data, Event> {
    /// Called by [`SceneManager::start`].
    fn on_start(&mut self, data: &mut Data)
        default_ensures
            &*final(self) == &*old(self),
            *final(data) == *old(data),
    {
    }

    /// For the application to call when the scene becomes current. The
    /// manager does not call it.
    fn on_enter(&mut self, data: &mut Data)
        default_ensures
            &*final(self) == &*old(self),
            *final(data) == *old(data),
    {
    }

    /// For the application to call when the scene stops being current. The
    /// manager does not call it.
    fn on_exit(&mut self, data: &mut Data)
        default_ensures
            &*final(self) == &*old(self),
            *final(data) == *old(data),
    {
    }

    /// Called by [`SceneManager::update`].
    fn on_update(&mut self, data: &mut Data)
        default_ensures
            &*final(self) == &*old(self),
            *final(data) == *old(data),
    {
    }

    /// Called by [`SceneManager::render`].
    fn on_render(&mut self, data: &mut Data)
        default_ensures
            &*final(self) == &*old(self),
            *final(data) == *old(data),
    {
    }

    /// Called by [`SceneManager::send_event`] with the event that was sent.
    fn on_event(&mut self, data: &mut Data, event: Event)
        default_ensures
            &*final(self) == &*old(self),
            *final(data) == *old(data),
    {
    }

    /// Called by [`SceneManager::poll_events`] with an empty queue, for the
    /// scene to put events of its own into it.
    fn poll_events(&mut self, data: &mut Data, events: &mut VecDeque<Event>)
        default_ensures
            &*final(self) == &*old(self),
            *final(data) == *old(data),
            *final(events) == *old(events),
    {
    }
}

/// A boxed scene is a scene: every hook calls the same hook of the scene in
/// the box, once, with what it was given, and the box then holds the scene as
/// that hook left it.
impl<Data, Event, T: Scene<Data, Event> + ?Sized> Scene<Data, Event> for Box<T> {
    fn on_start(&mut self, data: &mut Data)
        ensures
            exists|inner: &mut T, handed: &mut Data|
                {
                    &&& &*inner == &**old(self)
                    &&& *handed == *old(data)
                    &&& #[trigger] call_ensures(
                        <T as Scene<Data, Event>>::on_start,
                        (inner, handed),
                        (),
                    )
                    &&& &**final(self) == &*final(inner)
                    &&& *final(data) == *final(handed)
                },
    {
        let inner = &mut **self;
        inner.on_start(data);
    }

    fn on_enter(&mut self, data: &mut Data)
        ensures
            exists|inner: &mut T, handed: &mut Data|
                {
                    &&& &*inner == &**old(self)
                    &&& *handed == *old(data)
                    &&& #[trigger] call_ensures(
                        <T as Scene<Data, Event>>::on_enter,
                        (inner, handed),
                        (),
                    )
                    &&& &**final(self) == &*final(inner)
                    &&& *final(data) == *final(handed)
                },
    {
        let inner = &mut **self;
        inner.on_enter(data);
    }

    fn on_exit(&mut self, data: &mut Data)
        ensures
            exists|inner: &mut T, handed: &mut Data|
                {
                    &&& &*inner == &**old(self)
                    &&& *handed == *old(data)
                    &&& #[trigger] call_ensures(
                        <T as Scene<Data, Event>>::on_exit,
                        (inner, handed),
                        (),
                    )
                    &&& &**final(self) == &*final(inner)
                    &&& *final(data) == *final(handed)
                },
    {
        let inner = &mut **self;
        inner.on_exit(data);
    }

    fn on_update(&mut self, data: &mut Data)
        ensures
            exists|inner: &mut T, handed: &mut Data|
                {
                    &&& &*inner == &**old(self)
                    &&& *handed == *old(data)
                    &&& #[trigger] call_ensures(
                        <T as Scene<Data, Event>>::on_update,
                        (inner, handed),
                        (),
                    )
                    &&& &**final(self) == &*final(inner)
                    &&& *final(data) == *final(handed)
                },
    {
        let inner = &mut **self;
        inner.on_update(data);
    }

    fn on_render(&mut self, data: &mut Data)
        ensures
            exists|inner: &mut T, handed: &mut Data|
                {
                    &&& &*inner == &**old(self)
                    &&& *handed == *old(data)
                    &&& #[trigger] call_ensures(
                        <T as Scene<Data, Event>>::on_render,
                        (inner, handed),
                        (),
                    )
                    &&& &**final(self) == &*final(inner)
                    &&& *final(data) == *final(handed)
                },
    {
        let inner = &mut **self;
        inner.on_render(data);
    }

    fn on_event(&mut self, data: &mut Data, event: Event)
        ensures
            exists|inner: &mut T, handed: &mut Data|
                {
                    &&& &*inner == &**old(self)
                    &&& *handed == *old(data)
                    &&& #[trigger] call_ensures(
                        <T as Scene<Data, Event>>::on_event,
                        (inner, handed, event),
                        (),
                    )
                    &&& &**final(self) == &*final(inner)
                    &&& *final(data) == *final(handed)
                },
    {
        let inner = &mut **self;
        inner.on_event(data, event);
    }

    fn poll_events(&mut self, data: &mut Data, events: &mut VecDeque<Event>)
        ensures
            exists|inner: &mut T, handed: &mut Data, queue: &mut VecDeque<Event>|
                {
                    &&& &*inner == &**old(self)
                    &&& *handed == *old(data)
                    &&& *queue == *old(events)
                    &&& #[trigger] call_ensures(
                        <T as Scene<Data, Event>>::poll_events,
                        (inner, handed, queue),
                        (),
                    )
                    &&& &**final(self) == &*final(inner)
                    &&& *final(data) == *final(handed)
                    &&& *final(events) == *final(queue)
                },
    {
        let inner = &mut **self;
        inner.poll_events(data, events);
    }
}

/// What a [`SceneManager`] is: its scenes by name, the name of the current
/// one, and the events that wait to be handed out.
pub struct ManagerModel<S, Event> {
    pub scenes: Map<Seq<char>, S>,
    pub current: Option<Seq<char>>,
    pub pending: Seq<Event>,
}

impl<S, Event> ManagerModel<S, Event> {
    /// A manager with no scene.
    pub open spec fn empty() -> Self {
        ManagerModel { scenes: Map::empty(), current: None, pending: Seq::empty() }
    }

    /// Whether the current scene, if there is one, is registered under a
    /// name that is not empty, and no event waits.
    pub open spec fn consistent(self) -> bool {
        &&& self.pending.len() == 0
        &&& match self.current {
            Some(name) => name.len() > 0 && self.scenes.contains_key(name),
            None => true,
        }
    }

    /// This manager with `scene` registered under `name`, in place of what
    /// was registered under that name.
    pub open spec fn add(self, name: Seq<char>, scene: S) -> Self {
        ManagerModel { scenes: self.scenes.insert(name, scene), ..self }
    }

    /// This manager after each of `added`, a name and a scene, was
    /// registered, in order.
    pub open spec fn add_all(self, added: Seq<(Seq<char>, S)>) -> Self
        decreases added.len(),
    {
        if added.len() == 0 {
            self
        } else {
            self.add_all(added.drop_last()).add(added.last().0, added.last().1)
        }
    }

    /// Whether `name` can be chosen: it is empty, or a scene is registered
    /// under it.
    pub open spec fn selectable(self, name: Seq<char>) -> bool {
        name.len() == 0 || self.scenes.contains_key(name)
    }

    /// This manager with the scene under `name` current, or with no current
    /// scene where `name` is empty.
    pub open spec fn select(self, name: Seq<char>) -> Self {
        ManagerModel {
            current: if name.len() == 0 {
                None
            } else {
                Some(name)
            },
            ..self
        }
    }

    /// The name of the current scene; empty where no scene is current.
    pub open spec fn current_name(self) -> Seq<char> {
        match self.current {
            Some(name) => name,
            None => Seq::empty(),
        }
    }
}

/// Why a scene could not be made current.
#[derive(Clone, Copy, Debug, PartialEq, Eq)]
pub enum SceneError {
    /// No scene is registered under the name.
    NotRegistered,
}

/// Owns scenes by name and hands every call to the current one.
///
/// The scenes are of type `S`: boxed scenes of any kind unless another type
/// is chosen.
#[verifier::reject_recursive_types(Data)]
#[verifier::reject_recursive_types(Event)]
pub struct SceneManager<Data, Event, S = Box<dyn Scene<Data, Event>>> {
    names: Vec<String>,
    scenes: Vec<S>,
    current_scene: Option<usize>,
    events: VecDeque<Event>,
    data: PhantomData<Data>,
}

impl<Data, Event, S> View for SceneManager<Data, Event, S> {
    type V = ManagerModel<S, Event>;

    closed spec fn view(&self) -> ManagerModel<S, Event> {
        ManagerModel {
            scenes: registry(self.names@, self.scenes@),
            current: match self.current_scene {
                Some(i) => Some(self.names[i as int]@),
                None => None,
            },
            pending: self.events@,
        }
    }
}

impl<Data, Event, S: Scene<Data, Event>> SceneManager<Data, Event, S> {
    /// Names and scenes pair up, no name is stored twice, and the current
    /// scene is a stored one.
    pub closed spec fn inv(&self) -> bool {
        &&& self.names@.len() == self.scenes@.len()
        &&& distinct(self.names@)
        &&& match self.current_scene {
            Some(i) => i < self.names@.len(),
            None => true,
        }
    }

    /// The manager is well formed: the current scene, if there is one, is
    /// registered under a name that is not empty, and no event waits.
    pub open spec fn wf(&self) -> bool {
        self.inv() && self@.consistent()
    }

    /// A manager with no scene.
    pub fn new() -> (manager: SceneManager<Data, Event, S>)
        ensures
            manager.wf(),
            manager@ == ManagerModel::<S, Event>::empty(),
    {
        let manager = SceneManager {
            names: Vec::new(),
            scenes: Vec::new(),
            current_scene: None,
            events: VecDeque::new(),
            data: PhantomData,
        };
        assert(manager@.scenes =~= Map::empty());
        manager
    }

    /// Where `name` is stored, if it is.
    fn find(&self, name: &str) -> (found: Option<usize>)
        ensures
            match found {
                Some(i) => i < self.names@.len() && self.names[i as int]@ == name@,
                None => !holds(self.names@, name@),
            },
    {
        let key = name.to_owned();
        let mut i: usize = 0;
        while i < self.names.len()
            invariant
                i <= self.names@.len(),
                key@ == name@,
                forall|k: int| 0 <= k < i ==> self.names[k]@ != name@,
            decreases self.names@.len() - i,
        {
            if self.names[i] == key {
                return Some(i);
            }
            i = i + 1;
        }
        None
    }

    /// Registers `scene` under `name`. A scene that was registered under the
    /// same name is dropped, and where it was current, `scene` now is.
    pub fn add_scene(&mut self, scene: S, name: &str)
        requires
            old(self).wf(),
        ensures
            final(self).wf(),
            final(self)@ == old(self)@.add(name@, scene),
    {
        match self.find(name) {
            Some(i) => {
                proof {
                    lemma_registry_update(self.names@, self.scenes@, i as int, scene);
                }
                self.scenes[i] = scene;
            },
            None => {
                let key = name.to_owned();
                proof {
                    lemma_registry_push(self.names@, self.scenes@, key, scene);
                }
                self.names.push(key);
                self.scenes.push(scene);
                proof {
                    match self.current_scene {
                        Some(c) => {
                            lemma_slot(old(self).names@, c as int);
                        },
                        None => {},
                    }
                }
            },
        }
    }

    /// Makes the scene registered under `name` current, or no scene where
    /// `name` is empty.
    ///
    /// Fails, and changes nothing, where `name` is not empty and no scene is
    /// registered under it.
    pub fn set_current_scene(&mut self, name: &str) -> (result: Result<(), SceneError>)
        requires
            old(self).wf(),
        ensures
            final(self).wf(),
            result is Ok <==> old(self)@.selectable(name@),
            result is Ok ==> final(self)@ == old(self)@.select(name@),
            result is Err ==> final(self)@ == old(self)@,
    {
        if name.is_empty() {
            self.current_scene = None;
            Ok(())
        } else {
            match self.find(name) {
                Some(i) => {
                    self.current_scene = Some(i);
                    proof {
                        lemma_slot(self.names@, i as int);
                    }
                    Ok(())
                },
                None => Err(SceneError::NotRegistered),
            }
        }
    }

    /// The name of the current scene, or the empty string where no scene is
    /// current.
    pub fn current_scene_name(&self) -> (name: &str)
        requires
            self.wf(),
        ensures
            name@ == self@.current_name(),
    {
        match self.current_scene {
            Some(i) => self.names[i].as_str(),
            None => {
                proof {
                    reveal_strlit("");
                }
                assert(""@ =~= Seq::<char>::empty());
                ""
            },
        }
    }

    /// The current scene, if there is one.
    pub fn current_scene(&self) -> (scene: Option<&S>)
        requires
            self.wf(),
        ensures
            match self@.current {
                Some(name) => scene == Some(&self@.scenes[name]),
                None => scene is None,
            },
    {
        match self.current_scene {
            Some(i) => {
                proof {
                    lemma_registry_at(self.names@, self.scenes@, i as int);
                }
                Some(&self.scenes[i])
            },
            None => None,
        }
    }

    /// The scene registered under `name`, if there is one.
    pub fn scene(&self, name: &str) -> (scene: Option<&S>)
        requires
            self.wf(),
        ensures
            scene == if self@.scenes.contains_key(name@) {
                Some(&self@.scenes[name@])
            } else {
                None
            },
    {
        match self.find(name) {
            Some(i) => {
                proof {
                    lemma_registry_at(self.names@, self.scenes@, i as int);
                }
                Some(&self.scenes[i])
            },
            None => None,
        }
    }

    /// The current scene, if there is one, to be changed in place.
    pub fn current_scene_mut(&mut self) -> (scene: Option<&mut S>)
        requires
            old(self).wf(),
        ensures
            final(self).wf(),
            match scene {
                Some(scene) => match old(self)@.current {
                    Some(name) => *scene == old(self)@.scenes[name] && final(self)@ == old(
                        self,
                    )@.add(name, *final(scene)),
                    None => false,
                },
                None => old(self)@.current is None && final(self)@ == old(self)@,
            },
    {
        match self.current_scene {
            Some(i) => {
                let scene = &mut self.scenes[i];
                proof {
                    lemma_registry_at(old(self).names@, old(self).scenes@, i as int);
                    lemma_registry_update(
                        old(self).names@,
                        old(self).scenes@,
                        i as int,
                        *final(scene),
                    );
                }
                Some(scene)
            },
            None => None,
        }
    }

    /// The scene registered under `name`, if there is one, to be changed in
    /// place.
    pub fn scene_mut(&mut self, name: &str) -> (scene: Option<&mut S>)
        requires
            old(self).wf(),
        ensures
            final(self).wf(),
            match scene {
                Some(scene) => old(self)@.scenes.contains_key(name@) && *scene == old(
                    self,
                )@.scenes[name@] && final(self)@ == old(self)@.add(name@, *final(scene)),
                None => !old(self)@.scenes.contains_key(name@) && final(self)@ == old(self)@,
            },
    {
        match self.find(name) {
            Some(i) => {
                let scene = &mut self.scenes[i];
                proof {
                    lemma_registry_at(old(self).names@, old(self).scenes@, i as int);
                    lemma_registry_update(
                        old(self).names@,
                        old(self).scenes@,
                        i as int,
                        *final(scene),
                    );
                }
                Some(scene)
            },
            None => None,
        }
    }

    /// Calls `on_start` of the current scene, once, with `data`. Does nothing
    /// where no scene is current.
    ///
    /// The current scene and `data` end as the hook leaves them; nothing else
    /// changes.
    pub fn start(&mut self, data: &mut Data)
        requires
            old(self).wf(),
        ensures
            final(self).wf(),
            match old(self)@.current {
                Some(name) => exists|scene: &mut S, handed: &mut Data|
                    {
                        &&& *scene == old(self)@.scenes[name]
                        &&& *handed == *old(data)
                        &&& #[trigger] call_ensures(
                            <S as Scene<Data, Event>>::on_start,
                            (scene, handed),
                            (),
                        )
                        &&& *final(data) == *final(handed)
                        &&& final(self)@ == old(self)@.add(name, *final(scene))
                    },
                None => final(self)@ == old(self)@ && *final(data) == *old(data),
            },
    {
        match self.current_scene {
            Some(i) => {
                let scene = &mut self.scenes[i];
                scene.on_start(data);
                proof {
                    lemma_registry_at(old(self).names@, old(self).scenes@, i as int);
                    lemma_registry_update(old(self).names@, old(self).scenes@, i as int, *scene);
                }
            },
            None => {},
        }
    }

    /// Calls `on_update` of the current scene, once, with `data`. Does nothing
    /// where no scene is current.
    ///
    /// The current scene and `data` end as the hook leaves them; nothing else
    /// changes.
    pub fn update(&mut self, data: &mut Data)
        requires
            old(self).wf(),
        ensures
            final(self).wf(),
            match old(self)@.current {
                Some(name) => exists|scene: &mut S, handed: &mut Data|
                    {
                        &&& *scene == old(self)@.scenes[name]
                        &&& *handed == *old(data)
                        &&& #[trigger] call_ensures(
                            <S as Scene<Data, Event>>::on_update,
                            (scene, handed),
                            (),
                        )
                        &&& *final(data) == *final(handed)
                        &&& final(self)@ == old(self)@.add(name, *final(scene))
                    },
                None => final(self)@ == old(self)@ && *final(data) == *old(data),
            },
    {
        match self.current_scene {
            Some(i) => {
                let scene = &mut self.scenes[i];
                scene.on_update(data);
                proof {
                    lemma_registry_at(old(self).names@, old(self).scenes@, i as int);
                    lemma_registry_update(old(self).names@, old(self).scenes@, i as int, *scene);
                }
            },
            None => {},
        }
    }

    /// Calls `on_render` of the current scene, once, with `data`. Does nothing
    /// where no scene is current.
    ///
    /// The current scene and `data` end as the hook leaves them; nothing else
    /// changes.
    pub fn render(&mut self, data: &mut Data)
        requires
            old(self).wf(),
        ensures
            final(self).wf(),
            match old(self)@.current {
                Some(name) => exists|scene: &mut S, handed: &mut Data|
                    {
                        &&& *scene == old(self)@.scenes[name]
                        &&& *handed == *old(data)
                        &&& #[trigger] call_ensures(
                            <S as Scene<Data, Event>>::on_render,
                            (scene, handed),
                            (),
                        )
                        &&& *final(data) == *final(handed)
                        &&& final(self)@ == old(self)@.add(name, *final(scene))
                    },
                None => final(self)@ == old(self)@ && *final(data) == *old(data),
            },
    {
        match self.current_scene {
            Some(i) => {
                let scene = &mut self.scenes[i];
                scene.on_render(data);
                proof {
                    lemma_registry_at(old(self).names@, old(self).scenes@, i as int);
                    lemma_registry_update(old(self).names@, old(self).scenes@, i as int, *scene);
                }
            },
            None => {},
        }
    }

    /// Hands `event` to `on_event` of the current scene, once, with `data`.
    /// Where no scene is current the event is dropped.
    ///
    /// The current scene and `data` end as the hook leaves them; nothing else
    /// changes.
    pub fn send_event(&mut self, data: &mut Data, event: Event)
        requires
            old(self).wf(),
        ensures
            final(self).wf(),
            match old(self)@.current {
                Some(name) => exists|scene: &mut S, handed: &mut Data|
                    {
                        &&& *scene == old(self)@.scenes[name]
                        &&& *handed == *old(data)
                        &&& #[trigger] call_ensures(
                            <S as Scene<Data, Event>>::on_event,
                            (scene, handed, event),
                            (),
                        )
                        &&& *final(data) == *final(handed)
                        &&& final(self)@ == old(self)@.add(name, *final(scene))
                    },
                None => final(self)@ == old(self)@ && *final(data) == *old(data),
            },
    {
        match self.current_scene {
            Some(i) => {
                let scene = &mut self.scenes[i];
                scene.on_event(data, event);
                proof {
                    lemma_registry_at(old(self).names@, old(self).scenes@, i as int);
                    lemma_registry_update(old(self).names@, old(self).scenes@, i as int, *scene);
                }
            },
            None => {},
        }
    }

    /// Calls `poll_events` of the current scene, once, with `data` and the
    /// empty queue, then hands out what the scene has put into the queue,
    /// in order, and leaves the queue empty.
    ///
    /// Where no scene is current, nothing is handed out and nothing changes.
    pub fn poll_events(&mut self, data: &mut Data) -> (events: VecDeque<Event>)
        requires
            old(self).wf(),
        ensures
            final(self).wf(),
            match old(self)@.current {
                Some(name) => exists|
                    scene: &mut S,
                    handed: &mut Data,
                    queue: &mut VecDeque<Event>,
                |
                    {
                        &&& *scene == old(self)@.scenes[name]
                        &&& *handed == *old(data)
                        &&& queue@ == Seq::<Event>::empty()
                        &&& #[trigger] call_ensures(
                            <S as Scene<Data, Event>>::poll_events,
                            (scene, handed, queue),
                            (),
                        )
                        &&& *final(data) == *final(handed)
                        &&& events@ == final(queue)@
                        &&& final(self)@ == old(self)@.add(name, *final(scene))
                    },
                None => final(self)@ == old(self)@ && *final(data) == *old(data) && events@
                    == Seq::<Event>::empty(),
            },
    {
        match self.current_scene {
            Some(i) => {
                let scene = &mut self.scenes[i];
                proof {
                    assert(self.events@ =~= Seq::<Event>::empty());
                }
                scene.poll_events(data, &mut self.events);
                proof {
                    lemma_registry_at(old(self).names@, old(self).scenes@, i as int);
                    lemma_registry_update(old(self).names@, old(self).scenes@, i as int, *scene);
                }
            },
            None => {},
        }
        let events = take_events(&mut self.events);
        proof {
            assert(self.events@ =~= old(self).events@);
            if old(self).current_scene is None {
                assert(events@ =~= Seq::<Event>::empty());
            }
        }
        events
    }
}

/// Takes everything out of `queue`, in order, and leaves it empty.
pub fn take_events<Event>(queue: &mut VecDeque<Event>) -> (taken: VecDeque<Event>)
    ensures
        taken@ == old(queue)@,
        final(queue)@ == Seq::<Event>::empty(),
{
    let mut taken = VecDeque::new();
    taken.append(queue);
    assert(taken@ =~= old(queue)@);
    taken
}

/// After any number of registrations, a name is registered exactly if it was
/// before or is among those added; the current scene and the waiting events
/// are as before.
pub proof fn lemma_added_names<S, Event>(
    manager: ManagerModel<S, Event>,
    added: Seq<(Seq<char>, S)>,
)
    ensures
        forall|name: Seq<char>| #[trigger]
            manager.add_all(added).scenes.contains_key(name) <==> manager.scenes.contains_key(name)
                || exists|i: int| 0 <= i < added.len() && (#[trigger] added[i]).0 == name,
        manager.add_all(added).current == manager.current,
        manager.add_all(added).pending == manager.pending,
    decreases added.len(),
{
    if added.len() > 0 {
        let earlier = added.drop_last();
        lemma_added_names(manager, earlier);
        assert forall|name: Seq<char>| #[trigger]
            manager.add_all(added).scenes.contains_key(name) <==> manager.scenes.contains_key(name)
                || exists|i: int| 0 <= i < added.len() && (#[trigger] added[i]).0 == name by {
            if manager.add_all(added).scenes.contains_key(name) {
                if name == added.last().0 {
                    assert(added[added.len() - 1].0 == name);
                } else if !manager.scenes.contains_key(name) {
                    assert(manager.add_all(earlier).scenes.contains_key(name));
                    let i = choose|i: int| 0 <= i < earlier.len() && (#[trigger] earlier[i]).0 == name;
                    assert(added[i].0 == name);
                }
            }
            if exists|i: int| 0 <= i < added.len() && (#[trigger] added[i]).0 == name {
                let i = choose|i: int| 0 <= i < added.len() && (#[trigger] added[i]).0 == name;
                if i < earlier.len() {
                    assert(earlier[i].0 == name);
                }
            }
        }
    }
}

/// After any number of registrations, the scene registered under a name is
/// the one that was added under it last.
pub proof fn lemma_latest_added_is_registered<S, Event>(
    manager: ManagerModel<S, Event>,
    added: Seq<(Seq<char>, S)>,
    latest: int,
)
    requires
        0 <= latest < added.len(),
        forall|later: int| latest < later < added.len() ==> (#[trigger] added[later]).0 != added[latest].0,
    ensures
        manager.add_all(added).scenes.contains_key(added[latest].0),
        manager.add_all(added).scenes[added[latest].0] == added[latest].1,
    decreases added.len(),
{
    if latest < added.len() - 1 {
        let earlier = added.drop_last();
        assert(earlier[latest] == added[latest]);
        assert forall|later: int| latest < later < earlier.len() implies (#[trigger] earlier[later]).0
            != earlier[latest].0 by {
            assert(earlier[later] == added[later]);
        }
        lemma_latest_added_is_registered(manager, earlier, latest);
        assert(added[added.len() - 1].0 != added[latest].0);
    }
}

/// A scene that was not added under a name again is registered as before.
pub proof fn lemma_others_stay_registered<S, Event>(
    manager: ManagerModel<S, Event>,
    added: Seq<(Seq<char>, S)>,
    name: Seq<char>,
)
    requires
        manager.scenes.contains_key(name),
        forall|i: int| 0 <= i < added.len() ==> (#[trigger] added[i]).0 != name,
    ensures
        manager.add_all(added).scenes.contains_key(name),
        manager.add_all(added).scenes[name] == manager.scenes[name],
    decreases added.len(),
{
    if added.len() > 0 {
        let earlier = added.drop_last();
        assert forall|i: int| 0 <= i < earlier.len() implies (#[trigger] earlier[i]).0 != name by {
            assert(earlier[i] == added[i]);
        }
        lemma_others_stay_registered(manager, earlier, name);
        assert(added[added.len() - 1].0 != name);
    }
}

/// A name that can be chosen is, once chosen, the name of the current
/// scene; the empty name can always be chosen.
pub proof fn lemma_selected_is_current<S, Event>(manager: ManagerModel<S, Event>, name: Seq<char>)
    ensures
        manager.selectable(Seq::empty()),
        manager.select(name).current_name() == name,
        manager.select(name).scenes == manager.scenes,
        manager.consistent() && manager.selectable(name) ==> manager.select(name).consistent(),
{
    if name.len() == 0 {
        assert(name =~= Seq::empty());
    }
}

/// Registering a scene keeps a manager consistent, and keeps the current
/// name.
pub proof fn lemma_add_keeps_consistent<S, Event>(
    manager: ManagerModel<S, Event>,
    name: Seq<char>,
    scene: S,
)
    requires
        manager.consistent(),
    ensures
        manager.add(name, scene).consistent(),
        manager.add(name, scene).current_name() == manager.current_name(),
{
}

} // verus!
