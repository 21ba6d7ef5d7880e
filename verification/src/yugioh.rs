//! Cards as the data source describes them, cards as the application keeps
//! them, and the loading state of each card image.

pub use crate::deck::{DeckType, YugiohDeck};
pub use crate::search::YugiohCardSearchCriteria;
use crate::sizedbuffer::{
    added, emptied, has_room, held, in_flight, lemma_full_at_capacity, lemma_in_flight_update,
    Buffer,
};
use crate::text::{decimal, push_decimal};
use vstd::prelude::*;
use vstd::string::StringExecFns;

verus! {

/// The whole data set, as the data source sends it.
#[derive(Debug, Clone)]
pub struct YugiohCards {
    pub data: Vec<RawYugiohCard>,
}

/// One card, as the data source sends it.
#[derive(Debug, Clone)]
pub struct RawYugiohCard {
    pub id: u32,
    pub name: String,
    pub card_type: String,
    pub desc: String,
    pub race: String,
    pub archetype: Option<String>,
    pub card_sets: Option<Vec<RawCardSet>>,
    pub card_images: Vec<RawCardImage>,
    pub card_prices: Vec<RawCardPrice>,
}

/// One printing of a card. The price is the text that the data source
/// quotes.
#[derive(Debug, Clone)]
pub struct RawCardSet {
    pub set_name: String,
    pub set_code: String,
    pub set_rarity: String,
    pub set_rarity_code: String,
    pub set_price: String,
}

/// Where the two sizes of one picture of a card are found.
#[derive(Debug, Clone)]
pub struct RawCardImage {
    pub id: u32,
    pub image_url: String,
    pub image_url_small: String,
}

/// What a card costs at each vendor, as the text that the data source
/// quotes.
#[derive(Debug, Clone)]
pub struct RawCardPrice {
    pub cardmarket_price: String,
    pub tcgplayer_price: String,
    pub ebay_price: String,
    pub amazon_price: String,
    pub coolstuffinc_price: String,
}

/// The handle by which a picture that is ready for display is drawn.
#[derive(Debug, Clone, Copy, PartialEq, Eq, Structural)]
pub enum TextureId {
    Managed(u64),
    User(u64),
}

/// Where one picture stands between never asked for and ready for display.
/// A picture is in exactly one of these states, so one that is displayed
/// holds no slot and one that holds a slot is not displayed.
#[derive(Debug, Clone, Copy, PartialEq, Eq, Structural)]
pub enum ImageState {
    /// Not asked for, or asked for in vain: it may be asked for again.
    Unrequested,
    /// Being fetched by the task in the slot of this index.
    InFlight(usize),
    /// Ready for display.
    Resident(TextureId),
}

/// Why a picture that is being fetched could not be handed over.
#[derive(Debug, Clone, Copy, PartialEq, Eq, Structural)]
pub enum PromiseError {
    /// The slot that the picture names holds no task.
    DoesNotExist,
    /// The task has not finished, and the caller did not want to wait.
    NotReady,
}

/// What checking on a picture reports: whether there was anything to
/// report, and then either the finished task taken from its slot, nothing,
/// or what went wrong.
pub type Checked<T> = (bool, Result<Option<T>, PromiseError>);

/// One size of one picture of a card.
#[derive(Debug, Clone)]
pub struct YugiohImage {
    pub id: u32,
    pub url: String,
    pub state: ImageState,
    pub size: String,
}

/// The two sizes of one picture of a card.
#[derive(Debug, Clone)]
pub struct CardImage {
    pub id: u32,
    pub small: YugiohImage,
    pub large: YugiohImage,
}

/// One card, as the application keeps it.
#[derive(Debug, Clone)]
pub struct YugiohCard {
    pub id: u32,
    pub name: String,
    pub card_type: String,
    pub desc: String,
    pub race: String,
    pub archetype: String,
    pub card_sets: Option<Vec<RawCardSet>>,
    pub card_image: CardImage,
    pub card_prices: RawCardPrice,
}

/// What starting the fetch of a picture in `state` does, given the slots
/// and the capacity of the registry and the task that fetches: the
/// picture's state and the slots afterwards, and what is returned. A picture
/// that was not asked for takes the slot that the registry gives to the
/// task; where the registry is full, or the picture is being fetched or
/// ready, nothing changes and the task comes back.
pub open spec fn started<T>(
    state: ImageState,
    slots: Seq<Option<T>>,
    capacity: nat,
    task: T,
) -> (ImageState, Seq<Option<T>>, Result<usize, T>) {
    match (state, added(slots, capacity, task).1) {
        (ImageState::Unrequested, Ok(index)) => (
            ImageState::InFlight(index),
            added(slots, capacity, task).0,
            Ok(index),
        ),
        _ => (state, slots, Err(task)),
    }
}

/// What checking on a picture in `state` does, given the slots of the
/// registry, whether the task that the picture waits for has finished, and
/// whether an unfinished task counts as an error: the picture's state and
/// the slots afterwards, and what is reported.
pub open spec fn checked<T>(
    state: ImageState,
    slots: Seq<Option<T>>,
    ready: bool,
    not_ready_is_err: bool,
) -> (ImageState, Seq<Option<T>>, Checked<T>) {
    match state {
        ImageState::InFlight(index) => match held(slots, index as int) {
            None => (
                ImageState::Unrequested,
                slots,
                (true, Err::<Option<T>, PromiseError>(PromiseError::DoesNotExist)),
            ),
            Some(task) => if ready {
                (
                    ImageState::Unrequested,
                    emptied(slots, index as int),
                    (true, Ok::<Option<T>, PromiseError>(Some(task))),
                )
            } else if not_ready_is_err {
                (state, slots, (true, Err::<Option<T>, PromiseError>(PromiseError::NotReady)))
            } else {
                (state, slots, (false, Ok::<Option<T>, PromiseError>(None)))
            },
        },
        _ => (state, slots, (false, Ok::<Option<T>, PromiseError>(None))),
    }
}

/// A finished task is handed over once: checking again on what the first
/// check left reports nothing and changes nothing, and the slot that held
/// the task is free.
pub proof fn lemma_handed_over_once<T>(
    state: ImageState,
    slots: Seq<Option<T>>,
    ready: bool,
    not_ready_is_err: bool,
    again_ready: bool,
    again_not_ready_is_err: bool,
)
    requires
        checked(state, slots, ready, not_ready_is_err).2.1 matches Ok(Some(_)),
    ensures
        state matches ImageState::InFlight(index) && held(
            checked(state, slots, ready, not_ready_is_err).1,
            index as int,
        ) is None,
        checked(
            checked(state, slots, ready, not_ready_is_err).0,
            checked(state, slots, ready, not_ready_is_err).1,
            again_ready,
            again_not_ready_is_err,
        ) == (
            ImageState::Unrequested,
            checked(state, slots, ready, not_ready_is_err).1,
            (false, Ok::<Option<T>, PromiseError>(None)),
        ),
{
}

/// The task that starts the fetch of a picture is the task that is handed
/// over once it has finished, and the registry then holds as many tasks as
/// before the fetch.
pub proof fn lemma_started_task_comes_back<T>(
    slots: Seq<Option<T>>,
    capacity: nat,
    task: T,
    not_ready_is_err: bool,
)
    requires
        slots.len() <= capacity <= usize::MAX,
        has_room(slots, capacity),
    ensures
        started(ImageState::Unrequested, slots, capacity, task).0 is InFlight,
        started(ImageState::Unrequested, slots, capacity, task).2 is Ok,
        ({
            let fetching = started(ImageState::Unrequested, slots, capacity, task);
            let done = checked(fetching.0, fetching.1, true, not_ready_is_err);
            &&& done.0 == ImageState::Unrequested
            &&& done.2 == (true, Ok::<Option<T>, PromiseError>(Some(task)))
            &&& in_flight(fetching.1) == in_flight(slots) + 1
            &&& in_flight(done.1) == in_flight(slots)
        }),
{
    lemma_full_at_capacity(slots, capacity, task);
    let fetching = started(ImageState::Unrequested, slots, capacity, task);
    let index = fetching.2->Ok_0;
    lemma_in_flight_update(fetching.1, index as int, None);
}

/// Checking on a picture leaves every slot but its own as it was, and
/// never adds or drops a slot.
pub proof fn lemma_check_keeps_other_slots<T>(
    state: ImageState,
    slots: Seq<Option<T>>,
    ready: bool,
    not_ready_is_err: bool,
    other: int,
)
    requires
        !(state matches ImageState::InFlight(index) && index == other),
    ensures
        checked(state, slots, ready, not_ready_is_err).1.len() == slots.len(),
        held(checked(state, slots, ready, not_ready_is_err).1, other) == held(slots, other),
{
}

/// A picture that is ready for display stays so, with the same handle,
/// whatever is checked; one that was not being fetched is not touched.
pub proof fn lemma_resident_is_final<T>(
    state: ImageState,
    slots: Seq<Option<T>>,
    ready: bool,
    not_ready_is_err: bool,
)
    requires
        !(state is InFlight),
    ensures
        checked(state, slots, ready, not_ready_is_err) == (
            state,
            slots,
            (false, Ok::<Option<T>, PromiseError>(None)),
        ),
{
}

impl PromiseError {
    /// The error in words.
    pub fn message(&self) -> (r: String)
        ensures
            *self == PromiseError::DoesNotExist ==> r@ == "\"Image promise does not exist\""@,
            *self == PromiseError::NotReady ==> r@ == "\"Image promise is not ready\""@,
    {
        match self {
            PromiseError::DoesNotExist => String::from_str("\"Image promise does not exist\""),
            PromiseError::NotReady => String::from_str("\"Image promise is not ready\""),
        }
    }
}

impl YugiohImage {
    /// A picture that was never asked for.
    pub fn from_raw(url: String, id: u32, size: String) -> (r: Self)
        ensures
            r.url == url,
            r.id == id,
            r.size == size,
            r.state == ImageState::Unrequested,
    {
        Self { url, state: ImageState::Unrequested, id, size }
    }

    /// The handle of the picture, once it is ready for display.
    pub fn image(&self) -> (r: Option<TextureId>)
        ensures
            r == match self.state {
                ImageState::Resident(texture) => Some(texture),
                _ => None,
            },
    {
        match self.state {
            ImageState::Resident(texture) => Some(texture),
            _ => None,
        }
    }

    /// The index of the slot whose task fetches the picture, while it is
    /// being fetched.
    pub fn promise_index(&self) -> (r: Option<usize>)
        ensures
            r == match self.state {
                ImageState::InFlight(index) => Some(index),
                _ => None,
            },
    {
        match self.state {
            ImageState::InFlight(index) => Some(index),
            _ => None,
        }
    }

    /// The task that fetches the picture, for the caller to see whether it
    /// has finished.
    pub fn pending<'a, T>(&self, promises: &'a Buffer<T>) -> (r: Option<&'a T>)
        ensures
            match self.state {
                ImageState::InFlight(index) => {
                    &&& r is Some <==> held(promises@, index as int) is Some
                    &&& r matches Some(task) ==> held(promises@, index as int) == Some(*task)
                },
                _ => r is None,
            },
    {
        match self.state {
            ImageState::InFlight(index) => promises.get_ref(index),
            _ => None,
        }
    }

    /// Whether a fetch of the picture should be started now: it was not
    /// asked for, or in vain, and the registry has room for the task.
    pub fn needs_fetch<T>(&self, promises: &Buffer<T>) -> (r: bool)
        ensures
            r == (self.state == ImageState::Unrequested && has_room(
                promises@,
                promises.capacity(),
            )),
    {
        match self.state {
            ImageState::Unrequested => promises.get_index().is_some(),
            _ => false,
        }
    }

    /// Hands `task`, which fetches the picture, to the registry and notes
    /// its slot. Where the picture is being fetched already or is ready, or
    /// the registry is full, nothing changes and the task comes back.
    pub fn start_fetch<T>(&mut self, promises: &mut Buffer<T>, task: T) -> (r: Result<usize, T>)
        ensures
            final(self).id == old(self).id,
            final(self).url == old(self).url,
            final(self).size == old(self).size,
            final(promises).capacity() == old(promises).capacity(),
            (final(self).state, final(promises)@, r) == started(
                old(self).state,
                old(promises)@,
                old(promises).capacity(),
                task,
            ),
    {
        match self.state {
            ImageState::Unrequested => {
                let added = promises.try_add(task);
                if let Ok(index) = added {
                    self.state = ImageState::InFlight(index);
                }
                added
            },
            _ => Err(task),
        }
    }

    /// Checks on the picture. While it is being fetched and `ready` says
    /// that its task has finished, the task is taken from its slot and
    /// handed over, and the picture may be asked for again until
    /// `set_image` makes it ready; a slot found empty is forgotten. In
    /// every other state nothing changes.
    pub fn check_promise<T>(
        &mut self,
        promises: &mut Buffer<T>,
        ready: bool,
        not_ready_is_err: bool,
    ) -> (r: Checked<T>)
        ensures
            final(self).id == old(self).id,
            final(self).url == old(self).url,
            final(self).size == old(self).size,
            final(promises).capacity() == old(promises).capacity(),
            (final(self).state, final(promises)@, r) == checked(
                old(self).state,
                old(promises)@,
                ready,
                not_ready_is_err,
            ),
    {
        if let ImageState::InFlight(index) = self.state {
            if promises.get_ref(index).is_some() {
                if ready {
                    let task = promises.try_take(index);
                    self.state = ImageState::Unrequested;
                    (true, Ok(task))
                } else if not_ready_is_err {
                    (true, Err(PromiseError::NotReady))
                } else {
                    (false, Ok(None))
                }
            } else {
                self.state = ImageState::Unrequested;
                (true, Err(PromiseError::DoesNotExist))
            }
        } else {
            (false, Ok(None))
        }
    }

    /// Makes the picture ready for display with this handle, where it is
    /// not being fetched and not ready yet, and says whether it did.
    pub fn set_image(&mut self, texture: TextureId) -> (r: bool)
        ensures
            final(self).id == old(self).id,
            final(self).url == old(self).url,
            final(self).size == old(self).size,
            r == (old(self).state == ImageState::Unrequested),
            final(self).state == if r {
                ImageState::Resident(texture)
            } else {
                old(self).state
            },
    {
        match self.state {
            ImageState::Unrequested => {
                self.state = ImageState::Resident(texture);
                true
            },
            _ => false,
        }
    }

    /// The name of the cache entry of the picture, inside the directory of
    /// its size.
    pub fn cache_file_name(&self) -> (r: String)
        ensures
            r@ == decimal(self.id as nat) + ".cache"@,
    {
        let mut name = String::new();
        push_decimal(&mut name, self.id);
        name.append(".cache");
        name
    }

    /// The name of the task that fetches the picture.
    pub fn task_name(&self) -> (r: String)
        ensures
            r@ == self.size@ + ":"@ + decimal(self.id as nat),
    {
        let mut name = self.size.clone();
        name.append(":");
        push_decimal(&mut name, self.id);
        name
    }
}

impl CardImage {
    /// The two sizes of a picture, neither asked for yet.
    pub fn from_raw(raw_card_image: RawCardImage) -> (r: Self)
        ensures
            r.id == raw_card_image.id,
            r.small.id == raw_card_image.id,
            r.small.url == raw_card_image.image_url_small,
            r.small.size@ == "small"@,
            r.small.state == ImageState::Unrequested,
            r.large.id == raw_card_image.id,
            r.large.url == raw_card_image.image_url,
            r.large.size@ == "large"@,
            r.large.state == ImageState::Unrequested,
    {
        Self {
            id: raw_card_image.id,
            small: YugiohImage::from_raw(
                raw_card_image.image_url_small,
                raw_card_image.id,
                String::from_str("small"),
            ),
            large: YugiohImage::from_raw(
                raw_card_image.image_url,
                raw_card_image.id,
                String::from_str("large"),
            ),
        }
    }

    /// Checks on the small picture, then on the large one, and reports on
    /// them in this order. `ready_small` and `ready_large` say whether the
    /// task that each waits for has finished.
    pub fn check_promises<T>(
        &mut self,
        promises: &mut Buffer<T>,
        ready_small: bool,
        ready_large: bool,
        not_ready_is_err: bool,
    ) -> (r: [Checked<T>; 2])
        ensures
            final(self).id == old(self).id,
            final(self).small.id == old(self).small.id,
            final(self).small.url == old(self).small.url,
            final(self).small.size == old(self).small.size,
            final(self).large.id == old(self).large.id,
            final(self).large.url == old(self).large.url,
            final(self).large.size == old(self).large.size,
            final(promises).capacity() == old(promises).capacity(),
            ({
                let first = checked(
                    old(self).small.state,
                    old(promises)@,
                    ready_small,
                    not_ready_is_err,
                );
                let second = checked(old(self).large.state, first.1, ready_large, not_ready_is_err);
                &&& final(self).small.state == first.0
                &&& final(self).large.state == second.0
                &&& final(promises)@ == second.1
                &&& r@ == seq![first.2, second.2]
            }),
    {
        let small = self.small.check_promise(promises, ready_small, not_ready_is_err);
        let large = self.large.check_promise(promises, ready_large, not_ready_is_err);
        let both = [small, large];
        assert(both@ =~= seq![small, large]);
        both
    }
}

/// Whether `card` is the card that the data source describes by `raw`: it
/// has the first picture and the first list of prices of `raw`, neither
/// size of the picture asked for yet, and the archetype `None` where `raw`
/// names none.
pub open spec fn describes(raw: RawYugiohCard, card: YugiohCard) -> bool {
    &&& raw.card_images@.len() > 0
    &&& raw.card_prices@.len() > 0
    &&& card.id == raw.id
    &&& card.name == raw.name
    &&& card.card_type == raw.card_type
    &&& card.desc == raw.desc
    &&& card.race == raw.race
    &&& raw.archetype matches Some(archetype) ==> card.archetype == archetype
    &&& raw.archetype is None ==> card.archetype@ == "None"@
    &&& card.card_sets == raw.card_sets
    &&& card.card_image.id == raw.card_images@[0].id
    &&& card.card_image.small.id == raw.card_images@[0].id
    &&& card.card_image.small.url == raw.card_images@[0].image_url_small
    &&& card.card_image.small.size@ == "small"@
    &&& card.card_image.small.state == ImageState::Unrequested
    &&& card.card_image.large.id == raw.card_images@[0].id
    &&& card.card_image.large.url == raw.card_images@[0].image_url
    &&& card.card_image.large.size@ == "large"@
    &&& card.card_image.large.state == ImageState::Unrequested
    &&& card.card_prices == raw.card_prices@[0]
}

impl YugiohCard {
    /// The card that the data source describes by `raw_card`, which names
    /// at least one picture and one list of prices.
    pub fn from_raw(raw_card: RawYugiohCard) -> (r: Self)
        requires
            raw_card.card_images@.len() > 0,
            raw_card.card_prices@.len() > 0,
        ensures
            describes(raw_card, r),
    {
        let RawYugiohCard {
            id,
            name,
            card_type,
            desc,
            race,
            archetype,
            card_sets,
            card_images,
            card_prices,
        } = raw_card;
        let mut card_images = card_images;
        let mut card_prices = card_prices;
        let card_image = CardImage::from_raw(card_images.swap_remove(0));
        let card_prices = card_prices.swap_remove(0);
        let archetype = match archetype {
            Some(archetype) => archetype,
            None => String::from_str("None"),
        };
        Self { id, name, card_type, desc, card_image, card_prices, card_sets, race, archetype }
    }

    /// The card itself, for changing it.
    pub fn as_mut(&mut self) -> (r: &mut Self)
        ensures
            *r == *old(self),
            *final(self) == *final(r),
    {
        self
    }
}

impl YugiohCards {
    /// The cards of the data set, in its order. Every card of the set
    /// names at least one picture and one list of prices.
    pub fn into_cards(self) -> (r: Vec<YugiohCard>)
        requires
            forall|i: int|
                0 <= i < self.data@.len() ==> (#[trigger] self.data@[i]).card_images@.len() > 0
                    && self.data@[i].card_prices@.len() > 0,
        ensures
            r@.len() == self.data@.len(),
            forall|i: int| 0 <= i < r@.len() ==> describes(self.data@[i], #[trigger] r@[i]),
    {
        let ghost raw = self.data@;
        let mut cards: Vec<YugiohCard> = Vec::new();
        for raw_card in it: self.data
            invariant
                it.seq() == raw,
                cards@.len() == it.index(),
                forall|i: int|
                    0 <= i < raw.len() ==> (#[trigger] raw[i]).card_images@.len() > 0
                        && raw[i].card_prices@.len() > 0,
                forall|i: int| 0 <= i < cards@.len() ==> describes(raw[i], #[trigger] cards@[i]),
        {
            cards.push(YugiohCard::from_raw(raw_card));
        }
        cards
    }
}

} // verus!
