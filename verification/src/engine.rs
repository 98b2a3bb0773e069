pub mod backend_tpu_client;
pub mod cache_refresher;
pub mod leader_tpu_cache;
pub mod leader_tpu_map;
pub mod leader_tpu_service;
pub mod lookup_laws;
pub mod recent_leaders_slot;
pub mod service_startup;
