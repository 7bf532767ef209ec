use social_graph::cache::{Cache, Fetch, Lookup};
use social_graph::inference::{Interaction, InteractionType};
use social_graph::model::{Channel, ChannelKind, Event, User};
use social_graph::social::{Reason, RelationshipChange, SocialGraph};

/// A small generator of numbers that gives the same row on every run.
struct Numbers(u64);

impl Numbers {
    fn next(&mut self, below: u64) -> u64 {
        self.0 = self.0.wrapping_mul(6364136223846793005).wrapping_add(1442695040888963407);
        (self.0 >> 33) % below
    }
}

/// The table as the model has it: keys with their values, the most recently
/// used first.
struct Model {
    capacity: usize,
    entries: Vec<(u64, String)>,
}

impl Model {
    fn put(&mut self, key: u64, value: String) {
        if let Some(at) = self.entries.iter().position(|entry| entry.0 == key) {
            self.entries.remove(at);
        } else if self.entries.len() == self.capacity {
            self.entries.pop();
        }
        self.entries.insert(0, (key, value));
    }

    fn get(&mut self, key: u64) -> Option<String> {
        let at = self.entries.iter().position(|entry| entry.0 == key)?;
        let entry = self.entries.remove(at);
        self.entries.insert(0, entry.clone());
        Some(entry.1)
    }

    fn remove(&mut self, key: u64) {
        self.entries.retain(|entry| entry.0 != key);
    }
}

fn user(id: u64, name: &str) -> User {
    User { id, name: name.to_string(), discriminator: 1, avatar: None, bot: false }
}

fn channel(id: u64, name: &str) -> Channel {
    Channel { id, guild_id: Some(1), name: Some(name.to_string()), kind: ChannelKind::GuildText }
}

#[test]
fn users_table_follows_the_model() {
    for capacity in 1..=6usize {
        let mut numbers = Numbers(capacity as u64);
        let mut cache = Cache::with_capacity(capacity);
        let mut model = Model { capacity, entries: vec![] };
        for step in 0..3000 {
            let key = numbers.next(10);
            if numbers.next(2) == 0 {
                let name = format!("name{}", step);
                cache.put_user(&user(key, &name));
                model.put(key, name);
            } else {
                let found = match cache.get_user(key) {
                    Lookup::Hit(found) => Some(found.name),
                    Lookup::Miss(fetch) => {
                        assert_eq!(fetch, Fetch::User { user_id: key });
                        None
                    }
                };
                assert_eq!(found, model.get(key), "capacity {} step {}", capacity, step);
            }
            assert_eq!(cache.get_stats().users, model.entries.len());
        }
    }
}

#[test]
fn channels_table_follows_the_model_with_removals() {
    let capacity = 4;
    let mut numbers = Numbers(77);
    let mut cache = Cache::with_capacity(capacity);
    let mut model = Model { capacity, entries: vec![] };
    for step in 0..3000 {
        let key = numbers.next(9);
        match numbers.next(3) {
            0 => {
                let name = format!("name{}", step);
                cache.put_channel(&channel(key, &name));
                model.put(key, name);
            }
            1 => {
                let found = match cache.get_channel(key) {
                    Lookup::Hit(found) => Some(found.name),
                    Lookup::Miss(_) => None,
                };
                assert_eq!(found, model.get(key), "step {}", step);
            }
            _ => {
                cache.update(&Event::ChannelDelete(channel(key, "gone")));
                model.remove(key);
            }
        }
        assert_eq!(cache.get_stats().channels, model.entries.len());
    }
}

#[test]
fn graph_follows_the_model() {
    let mut numbers = Numbers(5);
    let mut social = SocialGraph::new();
    let mut nodes: Vec<u64> = vec![];
    let mut edges: Vec<((u64, u64), u64)> = vec![];
    let place = Interaction {
        what: InteractionType::Message,
        source: 0,
        targets: vec![],
        channel: 600,
        guild: 500,
        reference: None,
    };
    for _ in 0..500 {
        let source = numbers.next(6);
        let target = numbers.next(6);
        let delta = numbers.next(4);
        social.apply(
            &place,
            &vec![RelationshipChange { source, target, reason: Reason::Mention, delta }],
        );
        match edges.iter_mut().find(|edge| edge.0 == (source, target)) {
            Some(edge) => edge.1 += delta,
            None => {
                edges.push(((source, target), delta));
                for node in [source, target] {
                    if !nodes.contains(&node) {
                        nodes.push(node);
                    }
                }
            }
        }
        let graph = social.build_guild_graph(500).ok().unwrap();
        assert_eq!(graph.edges(), edges);
        assert_eq!(graph.nodes(), nodes);
        assert_eq!(graph.weight(source, target), edges.iter().find(|e| e.0 == (source, target)).unwrap().1);
    }
}
