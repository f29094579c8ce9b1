//! A house: its rooms under their names, and the report on all its devices.

use crate::devices::device::Summary;
use crate::devices::types::DeviceType;
use crate::directory::{map_of, Directory};
use crate::errors::HouseUpdateErr;
use crate::formatter::{
    json_objects, json_text, lemma_json_shape, lemma_objects_items_concat, lemma_plain_shape,
    objects_items, plain_lines, plain_text, views, Item, ItemType, PlainTextFormatter,
    ReportFormatter,
};
use crate::report::HouseReport;
use crate::room::Room;
use vstd::prelude::*;
use vstd::string::*;

verus! {

#[derive(Debug)]
pub struct House {
    name: String,
    rooms: Directory<Room>,
}

/// The objects that the first `n` of `rooms` add to the report of their house,
/// room after room.
pub open spec fn house_objects(rooms: Seq<Room>, n: nat) -> Seq<Seq<(Seq<char>, Seq<char>)>>
    decreases n,
{
    if n == 0 {
        Seq::empty()
    } else {
        house_objects(rooms, (n - 1) as nat) + rooms[n - 1].objects()
    }
}

/// Whether `room` is a room named `name` as it is when it has just been made:
/// without devices and without a receiver.
pub open spec fn is_new_room(room: Room, name: Seq<char>) -> bool {
    &&& room.wf()
    &&& room.name() == name
    &&& room.device_names() == Seq::<Seq<char>>::empty()
    &&& room.devices() == Seq::<DeviceType>::empty()
    &&& room.device_map() == Map::<Seq<char>, DeviceType>::empty()
    &&& room.receiver().is_none()
}

impl House {
    pub closed spec fn name(&self) -> Seq<char> {
        self.name@
    }

    /// The names under which the rooms stand, in the order in which they were
    /// added.
    pub closed spec fn room_names(&self) -> Seq<Seq<char>> {
        self.rooms.names()
    }

    /// The rooms, each at the place of its name.
    pub closed spec fn rooms(&self) -> Seq<Room> {
        self.rooms.items()
    }

    /// The rooms by the names under which they stand.
    pub open spec fn room_map(&self) -> Map<Seq<char>, Room> {
        map_of(self.room_names(), self.rooms())
    }

    /// A house is well formed when each name has its room, no two rooms stand
    /// under one name, and each room is well formed.
    pub open spec fn wf(&self) -> bool {
        &&& self.room_names().len() == self.rooms().len()
        &&& self.room_names().no_duplicates()
        &&& forall|i: int| 0 <= i < self.rooms().len() ==> (#[trigger] self.rooms()[i]).wf()
    }

    /// The objects of the report on the house: one for each device, with the
    /// name of its room, its own name and its summary, room after room.
    pub open spec fn objects(&self) -> Seq<Seq<(Seq<char>, Seq<char>)>> {
        house_objects(self.rooms(), self.rooms().len())
    }

    /// The items of the report on the house: those of its objects.
    pub open spec fn report(&self) -> Seq<Item> {
        objects_items(self.objects())
    }

    /// The report on a house in plain text has one line for each device of the
    /// house.
    pub proof fn lemma_plain_report(&self)
        ensures
            plain_text(self.report()) == plain_lines(self.objects()),
    {
        lemma_plain_shape(self.objects());
    }

    /// The report on a house in the JSON-like form is a list with one object
    /// for each device of the house.
    pub proof fn lemma_json_report(&self)
        ensures
            json_text(self.report()) == seq!['['] + json_objects(self.objects()) + seq![']'],
    {
        lemma_json_shape(self.objects());
    }

    /// Whether the house is as `other`.
    pub open spec fn same_as(&self, other: &House) -> bool {
        &&& self.name() == other.name()
        &&& self.room_names() == other.room_names()
        &&& self.rooms() == other.rooms()
        &&& self.room_map() == other.room_map()
    }

    /// Whether the house is `before` with a new room added at the end, under
    /// `name`.
    pub open spec fn with_room_added(&self, before: &House, name: Seq<char>) -> bool {
        &&& self.name() == before.name()
        &&& self.room_map().contains_key(name)
        &&& is_new_room(self.room_map()[name], name)
        &&& self.room_names() == before.room_names().push(name)
        &&& self.rooms() == before.rooms().push(self.room_map()[name])
        &&& self.room_map() == before.room_map().insert(name, self.room_map()[name])
    }

    /// Whether the house is `before` without the room under `name`, the other
    /// rooms in their order.
    pub open spec fn with_room_removed(&self, before: &House, name: Seq<char>) -> bool {
        let at = before.room_names().index_of(name);
        &&& self.name() == before.name()
        &&& !self.room_map().contains_key(name)
        &&& self.room_names() == before.room_names().remove(at)
        &&& self.rooms() == before.rooms().remove(at)
        &&& self.room_map() == before.room_map().remove(name)
    }

    /// Whether the house is `before` but for the room under `name`, which is
    /// now `room`.
    pub open spec fn with_room_changed(&self, before: &House, name: Seq<char>, room: Room) -> bool {
        &&& self.name() == before.name()
        &&& self.room_names() == before.room_names()
        &&& self.rooms() == before.rooms().update(before.room_names().index_of(name), room)
        &&& self.room_map() == before.room_map().insert(name, room)
    }

    /// Whether every room under a name is well formed.
    pub open spec fn rooms_wf(&self) -> bool {
        forall|name: Seq<char>| #[trigger]
            self.room_map().contains_key(name) ==> self.room_map()[name].wf()
    }

    /// In a well-formed house every room under a name is well formed.
    pub proof fn lemma_rooms_wf(&self)
        requires
            self.wf(),
        ensures
            self.rooms_wf(),
    {
        assert forall|name: Seq<char>| #[trigger]
            self.room_map().contains_key(name) implies self.room_map()[name].wf() by {
            let i = self.rooms.names().index_of(name);
            assert(0 <= i < self.rooms.names().len());
        }
    }

    /// A house without rooms.
    pub fn new(name: &str) -> (house: Self)
        ensures
            house.wf(),
            house.name() == name@,
            house.room_names() == Seq::<Seq<char>>::empty(),
            house.rooms() == Seq::<Room>::empty(),
            house.room_map() == Map::<Seq<char>, Room>::empty(),
    {
        Self { name: name.to_owned(), rooms: Directory::new() }
    }

    /// Adds an empty room under `name`, unless a room stands under that name
    /// already.
    pub fn add_room(&mut self, name: &str) -> (outcome: Result<(), HouseUpdateErr>)
        requires
            old(self).wf(),
        ensures
            final(self).wf(),
            match outcome {
                Ok(()) => {
                    &&& !old(self).room_map().contains_key(name@)
                    &&& final(self).with_room_added(old(self), name@)
                },
                Err(e) => {
                    &&& old(self).room_map().contains_key(name@)
                    &&& e matches HouseUpdateErr::RoomAlreadyExistsError(taken)
                    &&& taken@ == name@
                    &&& *final(self) == *old(self)
                },
            },
    {
        if self.rooms.contains_key(name) {
            return Err(HouseUpdateErr::RoomAlreadyExistsError(name.to_owned()));
        }
        let room = Room::new(name);
        let ghost added = room;
        self.rooms.insert(name.to_owned(), room);
        proof {
            assert(final(self).room_map()[name@] == added) by {
                assert(self.rooms.map() == old(self).rooms.map().insert(name@, added));
            }
            assert forall|i: int| 0 <= i < self.rooms.items().len() implies (
            #[trigger] self.rooms.items()[i]).wf() by {
                if i < old(self).rooms.items().len() {
                    assert(self.rooms.items()[i] == old(self).rooms.items()[i]);
                }
            }
        }
        Ok(())
    }

    /// Takes out the room under `name`, if there is one.
    pub fn remove_room(&mut self, name: &str) -> (outcome: Result<(), HouseUpdateErr>)
        requires
            old(self).wf(),
        ensures
            final(self).wf(),
            match outcome {
                Ok(()) => {
                    &&& old(self).room_map().contains_key(name@)
                    &&& final(self).with_room_removed(old(self), name@)
                },
                Err(e) => {
                    &&& !old(self).room_map().contains_key(name@)
                    &&& e matches HouseUpdateErr::RoomNotFoundError(missing)
                    &&& missing@ == name@
                    &&& *final(self) == *old(self)
                },
            },
    {
        match self.rooms.remove(name) {
            Some(_) => {
                proof {
                    let at = old(self).rooms.names().index_of(name@);
                    assert forall|i: int| 0 <= i < self.rooms.items().len() implies (
                    #[trigger] self.rooms.items()[i]).wf() by {
                        if i < at {
                            assert(self.rooms.items()[i] == old(self).rooms.items()[i]);
                        } else {
                            assert(self.rooms.items()[i] == old(self).rooms.items()[i + 1]);
                        }
                    }
                }
                Ok(())
            },
            None => Err(HouseUpdateErr::RoomNotFoundError(name.to_owned())),
        }
    }

    /// The rooms, in the order in which they were added.
    pub fn get_rooms(&self) -> (rooms: &Vec<Room>)
        ensures
            rooms@ == self.rooms(),
    {
        self.rooms.values()
    }

    /// The rooms, to be changed where they stand. The house stays well formed
    /// as long as each room does.
    pub fn get_rooms_mut(&mut self) -> (rooms: &mut [Room])
        ensures
            rooms@ == old(self).rooms(),
            final(self).name() == old(self).name(),
            final(self).room_names() == old(self).room_names(),
            final(self).rooms() == final(rooms)@,
            old(self).wf() && final(rooms)@.len() == rooms@.len() && (forall|i: int|
                0 <= i < final(rooms)@.len() ==> (#[trigger] final(rooms)@[i]).wf())
                ==> final(self).wf(),
    {
        self.rooms.values_mut()
    }

    /// The room under `name`, if there is one.
    pub fn get_room(&self, name: &str) -> (found: Option<&Room>)
        requires
            self.wf(),
        ensures
            found is Some == self.room_map().contains_key(name@),
            found is Some ==> *found->0 == self.room_map()[name@] && found->0.wf(),
    {
        let found = self.rooms.get(name);
        proof {
            self.lemma_rooms_wf();
        }
        found
    }

    /// The room under `name`, to be changed, if there is one. The house stays
    /// well formed as long as the room does.
    pub fn get_room_mut(&mut self, name: &str) -> (found: Option<&mut Room>)
        requires
            old(self).wf(),
        ensures
            match found {
                Some(room) => {
                    &&& old(self).room_map().contains_key(name@)
                    &&& *room == old(self).room_map()[name@]
                    &&& room.wf()
                    &&& final(self).with_room_changed(old(self), name@, *final(room))
                    &&& final(room).wf() ==> final(self).wf()
                },
                None => {
                    &&& !old(self).room_map().contains_key(name@)
                    &&& *final(self) == *old(self)
                },
            },
    {
        match self.rooms.position(name) {
            Some(place) => {
                proof {
                    assert(self.rooms.items()[place as int].wf());
                    assert forall|room: Room| #[trigger]
                        room.wf() implies forall|i: int|
                        0 <= i < self.rooms.items().len() ==> (#[trigger] self.rooms.items().update(
                            place as int,
                            room,
                        )[i]).wf() by {
                        assert forall|i: int| 0 <= i < self.rooms.items().len() implies (
                        #[trigger] self.rooms.items().update(place as int, room)[i]).wf() by {
                            if i != place {
                                assert(self.rooms.items()[i].wf());
                            }
                        }
                    }
                }
                Some(self.rooms.item_mut(place))
            },
            None => None,
        }
    }

    /// The items of the report on the house.
    pub fn report_items(&self) -> (items: Vec<ItemType>)
        requires
            self.wf(),
        ensures
            views(items@) == self.report(),
    {
        let mut items: Vec<ItemType> = Vec::new();
        let rooms = self.rooms.values();
        let mut i: usize = 0;
        proof {
            assert(views(items@) =~= objects_items(house_objects(self.rooms(), 0)));
        }
        while i < rooms.len()
            invariant
                i <= rooms.len(),
                rooms@ == self.rooms(),
                self.wf(),
                views(items@) == objects_items(house_objects(self.rooms(), i as nat)),
            decreases rooms.len() - i,
        {
            let ghost before = items@;
            let mut part = rooms[i].report_items();
            let ghost added = part@;
            items.append(&mut part);
            proof {
                assert(items@ == before + added);
                assert(views(items@) =~= views(before) + views(added));
                lemma_objects_items_concat(
                    house_objects(self.rooms(), i as nat),
                    rooms[i as int].objects(),
                );
            }
            i = i + 1;
        }
        items
    }

    /// The report on the house as `fmt` renders it.
    pub fn summary_fmt<F: ReportFormatter>(&self, fmt: Box<F>) -> (text: String)
        requires
            self.wf(),
        ensures
            text@ == fmt.rendering(self.report()),
    {
        let report = self.report_items();
        HouseReport::new(report, fmt).summary()
    }
}

impl Summary for House {
    open spec fn summary_ready(&self) -> bool {
        self.wf()
    }

    /// The report on the house in plain text.
    open spec fn summary_text(&self) -> Seq<char> {
        plain_text(self.report())
    }

    fn summary(&self) -> (text: String) {
        self.summary_fmt(Box::new(PlainTextFormatter {  }))
    }
}

} // verus!
