pub mod transactions;
pub mod calendar;
pub mod projects;
pub mod todos;
pub mod transportation_expenses;
pub mod auth;
pub mod roles;
pub mod properties;
pub mod health;
